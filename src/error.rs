use vstd::prelude::*;

verus! {

/// Why a notation string or token could not be parsed.
///
/// The variants that name a piece of text carry it, for diagnostics.
#[derive(Clone, Debug, PartialEq, Eq)]
pub enum Error {
    /// A group held no key name. A group interior with fewer than two parts
    /// is reported as [`Error::IncompleteGroup`] first, so parsing does not
    /// produce this kind.
    NoKeyName,
    /// A spelling that the key table does not hold.
    InvalidKeyName(String),
    /// A group part before the key name that is neither `C` nor `M`.
    InvalidKeyModifier(String),
    /// A `<` inside a group: groups do not nest.
    UnexpectedGroupOpen,
    /// A `>` outside any group.
    UnexpectedGroupClose,
    /// The input ended inside a group.
    UnexpectedEnd,
    /// A group that does not split into modifiers and a key name; carries the
    /// group's interior.
    IncompleteGroup(String),
}

/// The mathematical value of an [`Error`]: its text payloads as characters.
pub enum ErrorView {
    NoKeyName,
    InvalidKeyName(Seq<char>),
    InvalidKeyModifier(Seq<char>),
    UnexpectedGroupOpen,
    UnexpectedGroupClose,
    UnexpectedEnd,
    IncompleteGroup(Seq<char>),
}

impl View for Error {
    type V = ErrorView;

    open spec fn view(&self) -> ErrorView {
        match self {
            Error::NoKeyName => ErrorView::NoKeyName,
            Error::InvalidKeyName(s) => ErrorView::InvalidKeyName(s@),
            Error::InvalidKeyModifier(s) => ErrorView::InvalidKeyModifier(s@),
            Error::UnexpectedGroupOpen => ErrorView::UnexpectedGroupOpen,
            Error::UnexpectedGroupClose => ErrorView::UnexpectedGroupClose,
            Error::UnexpectedEnd => ErrorView::UnexpectedEnd,
            Error::IncompleteGroup(s) => ErrorView::IncompleteGroup(s@),
        }
    }
}

} // verus!
