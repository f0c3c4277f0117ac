//! The errors of the library.
use vstd::prelude::*;
use vstd::string::*;

verus! {

/// What can go wrong while a path is resolved or a file is replaced.
#[derive(Debug)]
pub enum Error {
    /// The operating system refused an operation; the text is its message.
    IOError(String),
    /// A variable in a path could not be looked up.
    ExpandError { var_name: String, cause: String },
    /// A path is not valid Unicode; `lossy` is its nearest readable form.
    UnicodeError { lossy: String },
    /// A path holds a zero byte at `position`.
    NulError { position: usize },
    /// Anything else.
    Unspecified(String),
}

/// The mathematical value of an [`Error`].
pub enum ErrorView {
    IOError(Seq<char>),
    ExpandError { var_name: Seq<char>, cause: Seq<char> },
    UnicodeError { lossy: Seq<char> },
    NulError { position: usize },
    Unspecified(Seq<char>),
}

impl View for Error {
    type V = ErrorView;

    open spec fn view(&self) -> ErrorView {
        match *self {
            Error::IOError(text) => ErrorView::IOError(text@),
            Error::ExpandError { var_name, cause } => ErrorView::ExpandError {
                var_name: var_name@,
                cause: cause@,
            },
            Error::UnicodeError { lossy } => ErrorView::UnicodeError { lossy: lossy@ },
            Error::NulError { position } => ErrorView::NulError { position },
            Error::Unspecified(text) => ErrorView::Unspecified(text@),
        }
    }
}

/// The character of a decimal digit.
pub open spec fn digit_char(digit: nat) -> char {
    if digit == 0 {
        '0'
    } else if digit == 1 {
        '1'
    } else if digit == 2 {
        '2'
    } else if digit == 3 {
        '3'
    } else if digit == 4 {
        '4'
    } else if digit == 5 {
        '5'
    } else if digit == 6 {
        '6'
    } else if digit == 7 {
        '7'
    } else if digit == 8 {
        '8'
    } else {
        '9'
    }
}

/// The decimal numeral of `n`, without leading zeros.
pub open spec fn decimal_text(n: nat) -> Seq<char>
    decreases n,
{
    if n < 10 {
        seq![digit_char(n)]
    } else {
        decimal_text(n / 10).push(digit_char(n % 10))
    }
}

/// The text of one decimal digit.
fn digit_text(digit: usize) -> (text: &'static str)
    requires
        digit < 10,
    ensures
        text@ == seq![digit_char(digit as nat)],
{
    proof {
        reveal_strlit("0");
        reveal_strlit("1");
        reveal_strlit("2");
        reveal_strlit("3");
        reveal_strlit("4");
        reveal_strlit("5");
        reveal_strlit("6");
        reveal_strlit("7");
        reveal_strlit("8");
        reveal_strlit("9");
    }
    let text = if digit == 0 {
        "0"
    } else if digit == 1 {
        "1"
    } else if digit == 2 {
        "2"
    } else if digit == 3 {
        "3"
    } else if digit == 4 {
        "4"
    } else if digit == 5 {
        "5"
    } else if digit == 6 {
        "6"
    } else if digit == 7 {
        "7"
    } else if digit == 8 {
        "8"
    } else {
        "9"
    };
    assert(text@ =~= seq![digit_char(digit as nat)]);
    text
}

/// Appends the decimal numeral of `n` to `out`.
pub fn push_decimal_text(out: &mut String, n: usize)
    ensures
        final(out)@ == old(out)@ + decimal_text(n as nat),
    decreases n,
{
    if n >= 10 {
        push_decimal_text(out, n / 10);
    }
    out.append(digit_text(n % 10));
    assert(out@ =~= old(out)@ + decimal_text(n as nat));
}

/// What the message of an error says after its heading.
pub open spec fn detail(error: ErrorView) -> Seq<char> {
    match error {
        ErrorView::IOError(text) => text,
        ErrorView::ExpandError { var_name, cause } => "error looking key '"@ + var_name + "' up: "@
            + cause,
        ErrorView::UnicodeError { lossy } => "lossy string = "@ + quoted_text(lossy),
        ErrorView::NulError { position } => "nul byte found in provided data at position: "@
            + decimal_text(position as nat),
        ErrorView::Unspecified(text) => text,
    }
}

/// The heading under which an error is reported.
pub open spec fn heading(error: ErrorView) -> Seq<char> {
    match error {
        ErrorView::IOError(_) => "IO Error: "@,
        ErrorView::ExpandError { .. } => "Expand Error: "@,
        ErrorView::UnicodeError { .. } => "Unicode Error: "@,
        ErrorView::NulError { .. } => "NulError: "@,
        ErrorView::Unspecified(_) => "Unspecified Error: "@,
    }
}

/// The text between double quotes, with escapes, by which the standard
/// library shows a string for debugging.
pub uninterp spec fn quoted_text(text: Seq<char>) -> Seq<char>;

/// `format!("{:?}", text)`: the debugging form of a string as the standard
/// library writes it.  The contract gives that form a name and claims no
/// more than that it depends on the characters alone.
#[verifier::external_body]
fn quoted(text: &str) -> (shown: String)
    ensures
        shown@ == quoted_text(text@),
{
    format!("{:?}", text)
}

impl Error {
    /// The message of the error: its heading, then its detail.
    pub fn message(&self) -> (text: String)
        ensures
            text@ == heading(self@) + detail(self@),
    {
        let mut text = String::new();
        match self {
            Error::IOError(inner) => {
                text.append("IO Error: ");
                text.append(inner.as_str());
            },
            Error::ExpandError { var_name, cause } => {
                text.append("Expand Error: ");
                text.append("error looking key '");
                text.append(var_name.as_str());
                text.append("' up: ");
                text.append(cause.as_str());
            },
            Error::UnicodeError { lossy } => {
                text.append("Unicode Error: ");
                text.append("lossy string = ");
                let shown = quoted(lossy.as_str());
                text.append(shown.as_str());
            },
            Error::NulError { position } => {
                text.append("NulError: ");
                text.append("nul byte found in provided data at position: ");
                push_decimal_text(&mut text, *position);
            },
            Error::Unspecified(inner) => {
                text.append("Unspecified Error: ");
                text.append(inner.as_str());
            },
        }
        assert(text@ =~= heading(self@) + detail(self@));
        text
    }

    /// The message of the error that lies beneath this one, where it wraps
    /// one: the operating system's, the variable lookup's, or that of the
    /// zero byte.
    pub fn source(&self) -> (inner: Option<String>)
        ensures
            match self@ {
                ErrorView::IOError(text) => inner is Some && inner->0@ == text,
                ErrorView::ExpandError { var_name, cause } => inner is Some && inner->0@ == cause,
                ErrorView::NulError { position } => inner is Some && inner->0@ == detail(self@),
                ErrorView::UnicodeError { .. } => inner is None,
                ErrorView::Unspecified(_) => inner is None,
            },
    {
        match self {
            Error::IOError(inner) => Some(inner.clone()),
            Error::ExpandError { var_name, cause } => Some(cause.clone()),
            Error::NulError { position } => {
                let mut text = String::new();
                text.append("nul byte found in provided data at position: ");
                push_decimal_text(&mut text, *position);
                assert(text@ =~= detail(self@));
                Some(text)
            },
            Error::UnicodeError { .. } => None,
            Error::Unspecified(_) => None,
        }
    }
}

} // verus!
