use vstd::prelude::*;

verus! {

/// Every way in which an operation on the message board can be turned down.
#[derive(Clone, Copy, Debug, PartialEq, Eq, Structural)]
pub enum CrudError {
    /// The caller already holds a message and asked to create another.
    YouAlreadyCreatedAMessage,
    /// The identity asked about holds no message.
    SenderNotFound,
    /// The text offered has no content at all.
    YourMessageIsEmpty,
    /// The text offered is shorter than the least length accepted.
    YourMessageIsTooShort,
    /// Nobody holds a message.
    NoMessageYet,
    /// The text offered is the text already stored.
    YourMessageIsTheSameAsBefore,
    /// The caller is not the owner, and only the owner may read the histories.
    OwnerOnly,
}

} // verus!
