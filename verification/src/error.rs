//! VM error types, exception descriptions, debug step modes and error context.

use vstd::prelude::*;
use vstd::string::*;
use crate::text::{decimal, has_prefix, i64_to_decimal, str_has_prefix, str_equal, concat2, concat3};
use crate::value::Value;

verus! {

/// The built-in exception kinds the VM raises by itself.
#[derive(Clone, Copy, Debug, PartialEq, Eq, Structural)]
pub enum ExceptionKind {
    TypeError,
    ValueError,
    NameError,
    IndexError,
    KeyError,
    AttributeError,
    ZeroDivisionError,
    RuntimeError,
    MemoryError,
}

/// Name of an exception kind.
pub open spec fn kind_name(k: ExceptionKind) -> Seq<char> {
    match k {
        ExceptionKind::TypeError => "TypeError"@,
        ExceptionKind::ValueError => "ValueError"@,
        ExceptionKind::NameError => "NameError"@,
        ExceptionKind::IndexError => "IndexError"@,
        ExceptionKind::KeyError => "KeyError"@,
        ExceptionKind::AttributeError => "AttributeError"@,
        ExceptionKind::ZeroDivisionError => "ZeroDivisionError"@,
        ExceptionKind::RuntimeError => "RuntimeError"@,
        ExceptionKind::MemoryError => "MemoryError"@,
    }
}

/// Method resolution order of an exception kind, most specific first.
pub open spec fn kind_mro(k: ExceptionKind) -> Seq<Seq<char>> {
    match k {
        ExceptionKind::IndexError => seq![kind_name(k), "LookupError"@, "Exception"@],
        ExceptionKind::KeyError => seq![kind_name(k), "LookupError"@, "Exception"@],
        ExceptionKind::ZeroDivisionError => seq![kind_name(k), "ArithmeticError"@, "Exception"@],
        _ => seq![kind_name(k), "Exception"@],
    }
}

/// The kind whose name is `name`, if any.
pub open spec fn kind_named(name: Seq<char>) -> Option<ExceptionKind> {
    if name == "TypeError"@ {
        Some(ExceptionKind::TypeError)
    } else if name == "ValueError"@ {
        Some(ExceptionKind::ValueError)
    } else if name == "NameError"@ {
        Some(ExceptionKind::NameError)
    } else if name == "IndexError"@ {
        Some(ExceptionKind::IndexError)
    } else if name == "KeyError"@ {
        Some(ExceptionKind::KeyError)
    } else if name == "AttributeError"@ {
        Some(ExceptionKind::AttributeError)
    } else if name == "ZeroDivisionError"@ {
        Some(ExceptionKind::ZeroDivisionError)
    } else if name == "RuntimeError"@ {
        Some(ExceptionKind::RuntimeError)
    } else if name == "MemoryError"@ {
        Some(ExceptionKind::MemoryError)
    } else {
        None
    }
}

/// The names of the kinds are pairwise distinct, so a kind is found back from
/// its name.
pub proof fn lemma_kind_named_inverse(k: ExceptionKind)
    ensures
        kind_named(kind_name(k)) == Some(k),
{
    reveal_strlit("TypeError");
    reveal_strlit("ValueError");
    reveal_strlit("NameError");
    reveal_strlit("IndexError");
    reveal_strlit("KeyError");
    reveal_strlit("AttributeError");
    reveal_strlit("ZeroDivisionError");
    reveal_strlit("RuntimeError");
    reveal_strlit("MemoryError");
    assert("TypeError"@.len() == 9 && "TypeError"@[0] == 'T');
    assert("ValueError"@.len() == 10 && "ValueError"@[0] == 'V');
    assert("NameError"@.len() == 9 && "NameError"@[0] == 'N');
    assert("IndexError"@.len() == 10 && "IndexError"@[0] == 'I');
    assert("KeyError"@.len() == 8);
    assert("AttributeError"@.len() == 14);
    assert("ZeroDivisionError"@.len() == 17);
    assert("RuntimeError"@.len() == 12);
    assert("MemoryError"@.len() == 11);
}

fn kind_name_string(k: ExceptionKind) -> (r: String)
    ensures
        r@ == kind_name(k),
{
    match k {
        ExceptionKind::TypeError => String::from_str("TypeError"),
        ExceptionKind::ValueError => String::from_str("ValueError"),
        ExceptionKind::NameError => String::from_str("NameError"),
        ExceptionKind::IndexError => String::from_str("IndexError"),
        ExceptionKind::KeyError => String::from_str("KeyError"),
        ExceptionKind::AttributeError => String::from_str("AttributeError"),
        ExceptionKind::ZeroDivisionError => String::from_str("ZeroDivisionError"),
        ExceptionKind::RuntimeError => String::from_str("RuntimeError"),
        ExceptionKind::MemoryError => String::from_str("MemoryError"),
    }
}

impl ExceptionKind {
    /// The kind's name.
    pub fn name(&self) -> (r: String)
        ensures
            r@ == kind_name(*self),
    {
        kind_name_string(*self)
    }

    /// The kind named `name`, if any.
    pub fn from_name(name: &str) -> (r: Option<ExceptionKind>)
        ensures
            r == kind_named(name@),
    {
        if str_equal(name, "TypeError") {
            Some(ExceptionKind::TypeError)
        } else if str_equal(name, "ValueError") {
            Some(ExceptionKind::ValueError)
        } else if str_equal(name, "NameError") {
            Some(ExceptionKind::NameError)
        } else if str_equal(name, "IndexError") {
            Some(ExceptionKind::IndexError)
        } else if str_equal(name, "KeyError") {
            Some(ExceptionKind::KeyError)
        } else if str_equal(name, "AttributeError") {
            Some(ExceptionKind::AttributeError)
        } else if str_equal(name, "ZeroDivisionError") {
            Some(ExceptionKind::ZeroDivisionError)
        } else if str_equal(name, "RuntimeError") {
            Some(ExceptionKind::RuntimeError)
        } else if str_equal(name, "MemoryError") {
            Some(ExceptionKind::MemoryError)
        } else {
            None
        }
    }
}

/// A raised exception: its type name, message and method resolution order.
#[derive(Clone, Debug)]
pub struct ExceptionInfo {
    pub exc_type: String,
    pub message: String,
    pub mro: Vec<String>,
}

/// The mathematical content of an `ExceptionInfo`.
pub struct ExceptionView {
    pub exc_type: Seq<char>,
    pub message: Seq<char>,
    pub mro: Seq<Seq<char>>,
}

impl ExceptionInfo {
    pub open spec fn view(&self) -> ExceptionView {
        ExceptionView {
            exc_type: self.exc_type@,
            message: self.message@,
            mro: self.mro@.map_values(|s: String| s@),
        }
    }

    /// Builds the description of a built-in exception of kind `kind`.
    pub fn from_kind(kind: ExceptionKind, message: String) -> (r: ExceptionInfo)
        ensures
            r.view() == kind_exception(kind, message@),
    {
        let name = kind_name_string(kind);
        let mut mro: Vec<String> = Vec::new();
        mro.push(kind_name_string(kind));
        match kind {
            ExceptionKind::IndexError | ExceptionKind::KeyError => {
                mro.push(String::from_str("LookupError"));
            },
            ExceptionKind::ZeroDivisionError => {
                mro.push(String::from_str("ArithmeticError"));
            },
            _ => {},
        }
        mro.push(String::from_str("Exception"));
        let r = ExceptionInfo { exc_type: name, message, mro };
        assert(r.view().mro =~= kind_mro(kind));
        r
    }

    /// Builds an exception description from a type name: a built-in kind's
    /// description when the name is one, else `[name, "Exception"]` as MRO.
    pub fn from_name(exc_type: String, message: String) -> (r: ExceptionInfo)
        ensures
            r.view() == named_exception(exc_type@, message@),
    {
        match ExceptionKind::from_name(exc_type.as_str()) {
            Some(kind) => ExceptionInfo::from_kind(kind, message),
            None => {
                let mut mro: Vec<String> = Vec::new();
                mro.push(exc_type.clone());
                mro.push(String::from_str("Exception"));
                let r = ExceptionInfo { exc_type, message, mro };
                assert(r.view().mro =~= seq![exc_type@, "Exception"@]);
                r
            },
        }
    }

    /// Whether this exception is an instance of the type named `name`: the
    /// name occurs in its MRO.
    pub fn matches(&self, name: &str) -> (r: bool)
        ensures
            r == self.view().mro.contains(name@),
    {
        let mut i: usize = 0;
        while i < self.mro.len()
            invariant
                i <= self.mro@.len(),
                forall|j: int| 0 <= j < i ==> self.mro@[j]@ != name@,
            decreases self.mro@.len() - i,
        {
            if str_equal(self.mro[i].as_str(), name) {
                assert(self.view().mro[i as int] == name@);
                return true;
            }
            i = i + 1;
        }
        assert(!self.view().mro.contains(name@)) by {
            if self.view().mro.contains(name@) {
                let j = choose|j: int| 0 <= j < self.view().mro.len() && self.view().mro[j] == name@;
                assert(self.mro@[j]@ == name@);
            }
        }
        false
    }
}

/// Description of a built-in exception of kind `k` carrying `msg`.
pub open spec fn kind_exception(k: ExceptionKind, msg: Seq<char>) -> ExceptionView {
    ExceptionView { exc_type: kind_name(k), message: msg, mro: kind_mro(k) }
}

/// Description of an exception named `name` carrying `msg`.
pub open spec fn named_exception(name: Seq<char>, msg: Seq<char>) -> ExceptionView {
    match kind_named(name) {
        Some(k) => kind_exception(k, msg),
        None => ExceptionView { exc_type: name, message: msg, mro: seq![name, "Exception"@] },
    }
}

/// A deferred unwind, saved while a `finally` block runs.
#[derive(Clone, Debug)]
pub enum PendingUnwind {
    Exception(ExceptionInfo),
    Return,
    Break,
    Continue,
}

/// VM execution error, control signal or exit request.
#[derive(Clone, Debug)]
pub enum VMError {
    StackUnderflow,
    FrameOverflow,
    NameError(String),
    AttributeError(String),
    TypeError(String),
    RuntimeError(String),
    ValueError(String),
    IndexError(String),
    KeyError(String),
    ZeroDivisionError(String),
    MemoryLimitExceeded(String),
    /// User-defined or struct-based exception with full MRO.
    UserException(ExceptionInfo),
    Interrupted,
    Exit(i32),
    Return(Value),
    Break,
    Continue,
}

impl VMError {
    /// The built-in kind and message of a built-in exception variant.
    pub open spec fn spec_builtin(&self) -> Option<(ExceptionKind, Seq<char>)> {
        match self {
            VMError::TypeError(m) => Some((ExceptionKind::TypeError, m@)),
            VMError::ValueError(m) => Some((ExceptionKind::ValueError, m@)),
            VMError::NameError(m) => Some((ExceptionKind::NameError, m@)),
            VMError::IndexError(m) => Some((ExceptionKind::IndexError, m@)),
            VMError::KeyError(m) => Some((ExceptionKind::KeyError, m@)),
            VMError::AttributeError(m) => Some((ExceptionKind::AttributeError, m@)),
            VMError::ZeroDivisionError(m) => Some((ExceptionKind::ZeroDivisionError, m@)),
            VMError::RuntimeError(m) => Some((ExceptionKind::RuntimeError, m@)),
            VMError::MemoryLimitExceeded(m) => Some((ExceptionKind::MemoryError, m@)),
            _ => None,
        }
    }

    /// User-catchable: a built-in exception or a user exception (not a control
    /// signal, exit, interrupt or internal error).
    pub open spec fn spec_catchable(&self) -> bool {
        self.spec_builtin().is_some() || self is UserException
    }

    /// The exception description of a catchable error.
    pub open spec fn spec_exception_info(&self) -> Option<ExceptionView> {
        match self {
            VMError::UserException(info) => Some(info.view()),
            _ => match self.spec_builtin() {
                Some((k, m)) => Some(kind_exception(k, m)),
                None => None,
            },
        }
    }

    /// Extracts the exception description of a catchable error.
    pub fn exception_info(&self) -> (r: Option<ExceptionInfo>)
        ensures
            r.is_some() == self.spec_exception_info().is_some(),
            r matches Some(info) ==> Some(info.view()) == self.spec_exception_info(),
    {
        match self {
            VMError::TypeError(m) => Some(ExceptionInfo::from_kind(ExceptionKind::TypeError, m.clone())),
            VMError::ValueError(m) => Some(ExceptionInfo::from_kind(ExceptionKind::ValueError, m.clone())),
            VMError::NameError(m) => Some(ExceptionInfo::from_kind(ExceptionKind::NameError, m.clone())),
            VMError::IndexError(m) => Some(ExceptionInfo::from_kind(ExceptionKind::IndexError, m.clone())),
            VMError::KeyError(m) => Some(ExceptionInfo::from_kind(ExceptionKind::KeyError, m.clone())),
            VMError::AttributeError(m) => Some(
                ExceptionInfo::from_kind(ExceptionKind::AttributeError, m.clone()),
            ),
            VMError::ZeroDivisionError(m) => Some(
                ExceptionInfo::from_kind(ExceptionKind::ZeroDivisionError, m.clone()),
            ),
            VMError::RuntimeError(m) => Some(ExceptionInfo::from_kind(ExceptionKind::RuntimeError, m.clone())),
            VMError::MemoryLimitExceeded(m) => Some(
                ExceptionInfo::from_kind(ExceptionKind::MemoryError, m.clone()),
            ),
            VMError::UserException(info) => {
                let c = ExceptionInfo {
                    exc_type: info.exc_type.clone(),
                    message: info.message.clone(),
                    mro: clone_strings(&info.mro),
                };
                assert(c.view().mro =~= info.view().mro);
                Some(c)
            },
            _ => None,
        }
    }

    /// Rebuilds an error from a stored exception type name and message.
    pub fn from_exception_info(exc_type: &str, msg: &str) -> (r: VMError)
        ensures
            r.spec_builtin() == Some((restored_kind(exc_type@), msg@)),
    {
        let m = msg.to_owned();
        match ExceptionKind::from_name(exc_type) {
            Some(ExceptionKind::TypeError) => VMError::TypeError(m),
            Some(ExceptionKind::ValueError) => VMError::ValueError(m),
            Some(ExceptionKind::NameError) => VMError::NameError(m),
            Some(ExceptionKind::IndexError) => VMError::IndexError(m),
            Some(ExceptionKind::KeyError) => VMError::KeyError(m),
            Some(ExceptionKind::AttributeError) => VMError::AttributeError(m),
            Some(ExceptionKind::ZeroDivisionError) => VMError::ZeroDivisionError(m),
            Some(ExceptionKind::MemoryError) => VMError::MemoryLimitExceeded(m),
            _ => VMError::RuntimeError(m),
        }
    }

    /// Whether this is a built-in exception variant.
    pub fn is_builtin(&self) -> (r: bool)
        ensures
            r == self.spec_builtin().is_some(),
    {
        match self {
            VMError::TypeError(_) | VMError::ValueError(_) | VMError::NameError(_)
            | VMError::IndexError(_) | VMError::KeyError(_) | VMError::AttributeError(_)
            | VMError::ZeroDivisionError(_) | VMError::RuntimeError(_)
            | VMError::MemoryLimitExceeded(_) => true,
            _ => false,
        }
    }

    /// True for user-catchable exceptions (not control flow or internal errors).
    pub fn is_catchable(&self) -> (r: bool)
        ensures
            r == self.spec_catchable(),
    {
        match self {
            VMError::TypeError(_) | VMError::ValueError(_) | VMError::NameError(_)
            | VMError::IndexError(_) | VMError::KeyError(_) | VMError::AttributeError(_)
            | VMError::ZeroDivisionError(_) | VMError::RuntimeError(_)
            | VMError::MemoryLimitExceeded(_) | VMError::UserException(_) => true,
            _ => false,
        }
    }

    /// The debug rendering of the variants that carry no exception
    /// description.
    pub open spec fn spec_debug_name(&self) -> Seq<char> {
        match self {
            VMError::StackUnderflow => "StackUnderflow"@,
            VMError::FrameOverflow => "FrameOverflow"@,
            VMError::Interrupted => "Interrupted"@,
            VMError::Exit(c) => "Exit("@ + decimal(*c as int) + ")"@,
            VMError::Return(_) => "Return"@,
            VMError::Break => "Break"@,
            VMError::Continue => "Continue"@,
            _ => Seq::empty(),
        }
    }

    fn debug_name(&self) -> (r: String)
        ensures
            r@ == self.spec_debug_name(),
    {
        match self {
            VMError::StackUnderflow => String::from_str("StackUnderflow"),
            VMError::FrameOverflow => String::from_str("FrameOverflow"),
            VMError::Interrupted => String::from_str("Interrupted"),
            VMError::Exit(c) => {
                let d = i64_to_decimal(*c as i64);
                concat3("Exit(", d.as_str(), ")")
            },
            VMError::Return(_) => String::from_str("Return"),
            VMError::Break => String::from_str("Break"),
            VMError::Continue => String::from_str("Continue"),
            _ => String::new(),
        }
    }

    /// The unwind a `finally` block must resume with after it runs.
    pub open spec fn spec_pending(&self) -> PendingView {
        match self {
            VMError::Return(_) => PendingView::Return,
            VMError::Break => PendingView::Break,
            VMError::Continue => PendingView::Continue,
            _ => match self.spec_exception_info() {
                Some(info) => PendingView::Exception(info),
                None => PendingView::Exception(named_exception("RuntimeError"@, self.spec_debug_name())),
            },
        }
    }

    /// Converts to the pending unwind for `finally` block processing.
    pub fn to_pending_unwind(&self) -> (r: PendingUnwind)
        ensures
            r.view() == self.spec_pending(),
    {
        match self {
            VMError::Return(_) => PendingUnwind::Return,
            VMError::Break => PendingUnwind::Break,
            VMError::Continue => PendingUnwind::Continue,
            other => {
                match other.exception_info() {
                    Some(info) => PendingUnwind::Exception(info),
                    None => PendingUnwind::Exception(
                        ExceptionInfo::from_name(String::from_str("RuntimeError"), other.debug_name()),
                    ),
                }
            },
        }
    }

    /// The displayed text of an error.
    pub open spec fn spec_display(&self) -> Seq<char> {
        match self {
            VMError::StackUnderflow => "WeirdError: VM stack underflow"@,
            VMError::FrameOverflow => "WeirdError: VM frame stack overflow"@,
            VMError::NameError(s) => if has_prefix(s@, "name '"@) {
                "NameError: "@ + s@
            } else {
                "NameError: "@ + name_error_text(s@)
            },
            VMError::AttributeError(s) => "AttributeError: "@ + s@,
            VMError::TypeError(s) => "TypeError: "@ + s@,
            VMError::RuntimeError(s) => s@,
            VMError::ValueError(s) => "ValueError: "@ + s@,
            VMError::IndexError(s) => "IndexError: "@ + s@,
            VMError::KeyError(s) => "KeyError: "@ + s@,
            VMError::ZeroDivisionError(s) => "ZeroDivisionError: "@ + s@,
            VMError::MemoryLimitExceeded(s) => "MemoryLimitExceeded: "@ + s@,
            VMError::UserException(info) => info.exc_type@ + ": "@ + info.message@,
            VMError::Interrupted => "KeyboardInterrupt"@,
            VMError::Exit(c) => "exit("@ + decimal(*c as int) + ")"@,
            VMError::Return(_) => "return signal"@,
            VMError::Break => "break signal"@,
            VMError::Continue => "continue signal"@,
        }
    }

    /// Renders the error as displayed to the user.
    pub fn to_display_string(&self) -> (r: String)
        ensures
            r@ == self.spec_display(),
    {
        match self {
            VMError::StackUnderflow => String::from_str("WeirdError: VM stack underflow"),
            VMError::FrameOverflow => String::from_str("WeirdError: VM frame stack overflow"),
            VMError::NameError(s) => {
                if str_has_prefix(s.as_str(), "name '") {
                    concat2("NameError: ", s.as_str())
                } else {
                    let t = format_name_error(s.as_str());
                    concat2("NameError: ", t.as_str())
                }
            },
            VMError::AttributeError(s) => concat2("AttributeError: ", s.as_str()),
            VMError::TypeError(s) => concat2("TypeError: ", s.as_str()),
            VMError::RuntimeError(s) => s.clone(),
            VMError::ValueError(s) => concat2("ValueError: ", s.as_str()),
            VMError::IndexError(s) => concat2("IndexError: ", s.as_str()),
            VMError::KeyError(s) => concat2("KeyError: ", s.as_str()),
            VMError::ZeroDivisionError(s) => concat2("ZeroDivisionError: ", s.as_str()),
            VMError::MemoryLimitExceeded(s) => concat2("MemoryLimitExceeded: ", s.as_str()),
            VMError::UserException(info) => concat3(info.exc_type.as_str(), ": ", info.message.as_str()),
            VMError::Interrupted => String::from_str("KeyboardInterrupt"),
            VMError::Exit(c) => {
                let d = i64_to_decimal(*c as i64);
                concat3("exit(", d.as_str(), ")")
            },
            VMError::Return(_) => String::from_str("return signal"),
            VMError::Break => String::from_str("break signal"),
            VMError::Continue => String::from_str("continue signal"),
        }
    }
}

/// Mathematical view of an error or control signal.
pub enum ErrorView {
    /// A built-in exception of a kind, with its message.
    Builtin(ExceptionKind, Seq<char>),
    /// A user or struct exception.
    User(ExceptionView),
    StackUnderflow,
    FrameOverflow,
    Interrupted,
    Exit(i32),
    Return(Value),
    Break,
    Continue,
}

impl ErrorView {
    /// User-catchable: a built-in or user exception.
    pub open spec fn catchable(self) -> bool {
        self is Builtin || self is User
    }

    /// The exception description of a catchable error.
    pub open spec fn info(self) -> ExceptionView {
        match self {
            ErrorView::Builtin(k, m) => kind_exception(k, m),
            ErrorView::User(i) => i,
            _ => kind_exception(ExceptionKind::RuntimeError, Seq::empty()),
        }
    }

    /// The debug rendering of the signals that carry no description.
    pub open spec fn debug_name(self) -> Seq<char> {
        match self {
            ErrorView::StackUnderflow => "StackUnderflow"@,
            ErrorView::FrameOverflow => "FrameOverflow"@,
            ErrorView::Interrupted => "Interrupted"@,
            ErrorView::Exit(c) => "Exit("@ + decimal(c as int) + ")"@,
            ErrorView::Return(_) => "Return"@,
            ErrorView::Break => "Break"@,
            ErrorView::Continue => "Continue"@,
            _ => Seq::empty(),
        }
    }

    /// The unwind a `finally` block resumes with after it runs.
    pub open spec fn pending(self) -> PendingView {
        match self {
            ErrorView::Return(_) => PendingView::Return,
            ErrorView::Break => PendingView::Break,
            ErrorView::Continue => PendingView::Continue,
            ErrorView::Builtin(k, m) => PendingView::Exception(kind_exception(k, m)),
            ErrorView::User(i) => PendingView::Exception(i),
            _ => PendingView::Exception(named_exception("RuntimeError"@, self.debug_name())),
        }
    }
}

/// The view of an error agrees with its catchability, description and
/// pending unwind.
pub proof fn lemma_error_view(e: VMError)
    ensures
        e.view().catchable() == e.spec_catchable(),
        e.spec_catchable() ==> e.spec_exception_info() == Some(e.view().info()),
        e.view().pending() == e.spec_pending(),
{
}

impl VMError {
    pub open spec fn view(&self) -> ErrorView {
        match self {
            VMError::StackUnderflow => ErrorView::StackUnderflow,
            VMError::FrameOverflow => ErrorView::FrameOverflow,
            VMError::UserException(info) => ErrorView::User(info.view()),
            VMError::Interrupted => ErrorView::Interrupted,
            VMError::Exit(c) => ErrorView::Exit(*c),
            VMError::Return(v) => ErrorView::Return(*v),
            VMError::Break => ErrorView::Break,
            VMError::Continue => ErrorView::Continue,
            _ => {
                let b = self.spec_builtin().unwrap();
                ErrorView::Builtin(b.0, b.1)
            },
        }
    }

    /// A copy of the error.
    pub fn copy(&self) -> (r: VMError)
        ensures
            r.view() == self.view(),
            r.spec_builtin() == self.spec_builtin(),
            r.spec_catchable() == self.spec_catchable(),
            r.spec_exception_info() == self.spec_exception_info(),
            r.spec_pending() == self.spec_pending(),
    {
        match self {
            VMError::StackUnderflow => VMError::StackUnderflow,
            VMError::FrameOverflow => VMError::FrameOverflow,
            VMError::NameError(m) => VMError::NameError(m.clone()),
            VMError::AttributeError(m) => VMError::AttributeError(m.clone()),
            VMError::TypeError(m) => VMError::TypeError(m.clone()),
            VMError::RuntimeError(m) => VMError::RuntimeError(m.clone()),
            VMError::ValueError(m) => VMError::ValueError(m.clone()),
            VMError::IndexError(m) => VMError::IndexError(m.clone()),
            VMError::KeyError(m) => VMError::KeyError(m.clone()),
            VMError::ZeroDivisionError(m) => VMError::ZeroDivisionError(m.clone()),
            VMError::MemoryLimitExceeded(m) => VMError::MemoryLimitExceeded(m.clone()),
            VMError::UserException(info) => VMError::UserException(info.copy()),
            VMError::Interrupted => VMError::Interrupted,
            VMError::Exit(c) => VMError::Exit(*c),
            VMError::Return(v) => VMError::Return(*v),
            VMError::Break => VMError::Break,
            VMError::Continue => VMError::Continue,
        }
    }
}

impl ExceptionInfo {
    /// A copy of the description.
    pub fn copy(&self) -> (r: ExceptionInfo)
        ensures
            r.view() == self.view(),
    {
        let c = ExceptionInfo {
            exc_type: self.exc_type.clone(),
            message: self.message.clone(),
            mro: clone_strings(&self.mro),
        };
        assert(c.view().mro =~= self.view().mro);
        c
    }
}

impl PendingUnwind {
    /// A copy of the pending unwind.
    pub fn copy(&self) -> (r: PendingUnwind)
        ensures
            r.view() == self.view(),
    {
        match self {
            PendingUnwind::Exception(info) => PendingUnwind::Exception(info.copy()),
            PendingUnwind::Return => PendingUnwind::Return,
            PendingUnwind::Break => PendingUnwind::Break,
            PendingUnwind::Continue => PendingUnwind::Continue,
        }
    }
}

/// The kind an error is rebuilt with from a stored type name: the kind of
/// that name, `RuntimeError` for any other name.
pub open spec fn restored_kind(exc_type: Seq<char>) -> ExceptionKind {
    match kind_named(exc_type) {
        Some(k) => k,
        None => ExceptionKind::RuntimeError,
    }
}

/// The message of a `NameError` raised for an unbound `name`.
pub open spec fn name_error_text(name: Seq<char>) -> Seq<char> {
    "name '"@ + name + "' is not defined"@
}

/// Formats the message of a `NameError` raised for an unbound `name`.
pub fn format_name_error(name: &str) -> (r: String)
    ensures
        r@ == name_error_text(name@),
{
    concat3("name '", name, "' is not defined")
}

/// View of a pending unwind.
pub enum PendingView {
    Exception(ExceptionView),
    Return,
    Break,
    Continue,
}

impl PendingUnwind {
    pub open spec fn view(&self) -> PendingView {
        match self {
            PendingUnwind::Exception(info) => PendingView::Exception(info.view()),
            PendingUnwind::Return => PendingView::Return,
            PendingUnwind::Break => PendingView::Break,
            PendingUnwind::Continue => PendingView::Continue,
        }
    }
}

fn clone_strings(v: &Vec<String>) -> (r: Vec<String>)
    ensures
        r@.len() == v@.len(),
        forall|i: int| 0 <= i < v@.len() ==> r@[i]@ == v@[i]@,
{
    let mut out: Vec<String> = Vec::new();
    let mut i: usize = 0;
    while i < v.len()
        invariant
            i <= v@.len(),
            out@.len() == i,
            forall|j: int| 0 <= j < i ==> out@[j]@ == v@[j]@,
        decreases v@.len() - i,
    {
        out.push(v[i].clone());
        i = i + 1;
    }
    out
}

/// Debug stepping mode for the interactive debugger.
#[derive(Clone, Copy, PartialEq, Eq, Debug, Structural)]
pub enum DebugStepMode {
    /// No stepping, only stop at breakpoints
    Disabled,
    /// Continue until next breakpoint
    Continue,
    /// Stop at every instruction
    StepInto,
    /// Stop when returning to same or shallower depth
    StepOver,
    /// Stop when returning to shallower depth
    StepOut,
}

impl DebugStepMode {
    /// The numeric code of a mode (0 to 4, in declaration order).
    pub open spec fn spec_code(self) -> i32 {
        match self {
            DebugStepMode::Disabled => 0,
            DebugStepMode::Continue => 1,
            DebugStepMode::StepInto => 2,
            DebugStepMode::StepOver => 3,
            DebugStepMode::StepOut => 4,
        }
    }

    /// Decodes a mode from its numeric code; unknown codes mean `Disabled`.
    pub fn from_i32(v: i32) -> (r: Self)
        ensures
            (1 <= v <= 4) ==> r.spec_code() == v,
            !(1 <= v <= 4) ==> r == DebugStepMode::Disabled,
    {
        match v {
            1 => DebugStepMode::Continue,
            2 => DebugStepMode::StepInto,
            3 => DebugStepMode::StepOver,
            4 => DebugStepMode::StepOut,
            _ => DebugStepMode::Disabled,
        }
    }

    /// The numeric code of the mode.
    pub fn code(&self) -> (r: i32)
        ensures
            r == self.spec_code(),
    {
        match *self {
            DebugStepMode::Disabled => 0,
            DebugStepMode::Continue => 1,
            DebugStepMode::StepInto => 2,
            DebugStepMode::StepOver => 3,
            DebugStepMode::StepOut => 4,
        }
    }
}

/// Call frame info for stack traces.
#[derive(Clone, Debug)]
pub struct CallInfo {
    /// Function name (or "<module>")
    pub name: String,
    /// start_byte of the call site in the source
    pub call_start_byte: u32,
}

/// Error context captured when a VMError is raised.
#[derive(Clone, Debug)]
pub struct ErrorContext {
    /// Error type name ("TypeError", "NameError", etc.)
    pub error_type: String,
    /// Error message
    pub message: String,
    /// Position in source (start_byte) where the error occurred
    pub start_byte: u32,
    /// Call stack snapshot: (function_name, start_byte) per frame
    pub call_stack: Vec<(String, u32)>,
}

} // verus!
