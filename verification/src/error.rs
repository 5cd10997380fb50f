use vstd::prelude::*;

verus! {

/// Why a generation pass was abandoned.
#[derive(Debug)]
pub enum Error {
    /// A reference that is not of the local form `#/components/schemas/<Name>`.
    InvalidReference { reference: String },
    /// A synthesized identifier or type that is not valid syntax.
    Syntax { text: String },
}

/// The mathematical value of an [`Error`].
pub enum ErrorView {
    InvalidReference { reference: Seq<char> },
    Syntax { text: Seq<char> },
}

impl View for Error {
    type V = ErrorView;

    open spec fn view(&self) -> ErrorView {
        match *self {
            Error::InvalidReference { reference } => ErrorView::InvalidReference {
                reference: reference@,
            },
            Error::Syntax { text } => ErrorView::Syntax { text: text@ },
        }
    }
}

impl Error {
    /// The diagnostic shown for this error.
    pub open spec fn message_spec(e: ErrorView) -> Seq<char> {
        match e {
            ErrorView::InvalidReference { reference } => "Invalid reference: "@ + reference,
            ErrorView::Syntax { text } => "Invalid syntax: "@ + text,
        }
    }

    /// Renders the diagnostic for this error.
    pub fn message(&self) -> (out: String)
        ensures
            out@ == Self::message_spec(self@),
    {
        match self {
            Error::InvalidReference { reference } => {
                String::from_str("Invalid reference: ").concat(reference.as_str())
            },
            Error::Syntax { text } => String::from_str("Invalid syntax: ").concat(text.as_str()),
        }
    }
}

} // verus!
