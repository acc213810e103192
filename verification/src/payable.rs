use vstd::prelude::*;

verus! {

/// Whether a contract method takes payment with a call, and in which token.
#[derive(Debug, PartialEq, Eq)]
pub enum MethodPayableMetadata {
    /// Nothing is said about payment.
    NoMetadata,
    /// The method takes no payment.
    NotPayable,
    /// The method takes payment in the native token.
    Egld,
    /// The method takes payment in the one token of this name.
    SingleEsdtToken(String),
    /// The method takes payment in any token.
    AnyToken,
}

impl Clone for MethodPayableMetadata {
    fn clone(&self) -> (copy: Self)
        ensures
            copy == *self,
    {
        match self {
            MethodPayableMetadata::NoMetadata => MethodPayableMetadata::NoMetadata,
            MethodPayableMetadata::NotPayable => MethodPayableMetadata::NotPayable,
            MethodPayableMetadata::Egld => MethodPayableMetadata::Egld,
            MethodPayableMetadata::SingleEsdtToken(token_name) => {
                MethodPayableMetadata::SingleEsdtToken(token_name.clone())
            },
            MethodPayableMetadata::AnyToken => MethodPayableMetadata::AnyToken,
        }
    }
}

/// What kind of method a contract method is, as far as payment goes.
#[derive(Debug, PartialEq, Eq)]
pub enum MethodKind {
    /// An ordinary method, which says for itself whether it takes payment.
    Regular(MethodPayableMetadata),
    Event,
    Callback,
    CallbackRaw,
    StorageGetter,
    StorageSetter,
    StorageGetMut,
    StorageIsEmpty,
    StorageClear,
    Module,
}

/// What the entry point of a method does about payment before anything else.
#[derive(Debug, PartialEq, Eq)]
pub enum PayableSnippet {
    /// Nothing.
    Nothing,
    /// It refuses a call that carries payment.
    CheckNotPayable,
    /// It asks for payment in the native token.
    RequireEgld,
    /// It asks for payment in the token of this name.
    RequireEsdt(String),
}

/// The payment that a method of kind `kind` takes. An ordinary method says so
/// itself, the accessors of storage take none, and of the other kinds nothing is
/// said.
pub open spec fn payable_of(kind: MethodKind) -> MethodPayableMetadata {
    match kind {
        MethodKind::Regular(payable) => payable,
        MethodKind::StorageGetter => MethodPayableMetadata::NotPayable,
        MethodKind::StorageSetter => MethodPayableMetadata::NotPayable,
        MethodKind::StorageGetMut => MethodPayableMetadata::NotPayable,
        MethodKind::StorageIsEmpty => MethodPayableMetadata::NotPayable,
        MethodKind::StorageClear => MethodPayableMetadata::NotPayable,
        _ => MethodPayableMetadata::NoMetadata,
    }
}

/// The payment that a method of kind `kind` takes.
pub fn method_payable_metadata(kind: MethodKind) -> (mpm: MethodPayableMetadata)
    ensures
        mpm == payable_of(kind),
{
    match kind {
        MethodKind::Regular(payable) => payable,
        MethodKind::StorageGetter => MethodPayableMetadata::NotPayable,
        MethodKind::StorageSetter => MethodPayableMetadata::NotPayable,
        MethodKind::StorageGetMut => MethodPayableMetadata::NotPayable,
        MethodKind::StorageIsEmpty => MethodPayableMetadata::NotPayable,
        MethodKind::StorageClear => MethodPayableMetadata::NotPayable,
        _ => MethodPayableMetadata::NoMetadata,
    }
}

/// What an entry point does about the payment `mpm`: it checks what the method
/// asks for, and does nothing where any token is welcome or nothing is said.
pub open spec fn snippet_of(mpm: MethodPayableMetadata) -> PayableSnippet {
    match mpm {
        MethodPayableMetadata::NoMetadata => PayableSnippet::Nothing,
        MethodPayableMetadata::NotPayable => PayableSnippet::CheckNotPayable,
        MethodPayableMetadata::Egld => PayableSnippet::RequireEgld,
        MethodPayableMetadata::SingleEsdtToken(token_name) => PayableSnippet::RequireEsdt(
            token_name,
        ),
        MethodPayableMetadata::AnyToken => PayableSnippet::Nothing,
    }
}

/// What an entry point does about the payment `mpm`.
pub fn payable_snippet_for_metadata(mpm: MethodPayableMetadata) -> (snippet: PayableSnippet)
    ensures
        snippet == snippet_of(mpm),
{
    match mpm {
        MethodPayableMetadata::NoMetadata => PayableSnippet::Nothing,
        MethodPayableMetadata::NotPayable => PayableSnippet::CheckNotPayable,
        MethodPayableMetadata::Egld => PayableSnippet::RequireEgld,
        MethodPayableMetadata::SingleEsdtToken(token_name) => PayableSnippet::RequireEsdt(
            token_name,
        ),
        MethodPayableMetadata::AnyToken => PayableSnippet::Nothing,
    }
}

/// The type of an argument of a method, as far as its shape matters.
#[derive(Debug, PartialEq, Eq)]
pub enum ArgType {
    /// A path, of which the name of the last segment is kept.
    Path(String),
    /// A reference to a type.
    Reference { mutable: bool, elem: Box<ArgType> },
    /// Any other type.
    Other,
}

/// Why an argument cannot take the payment of a call.
#[derive(Debug, PartialEq, Eq)]
pub enum PaymentArgError {
    /// The argument is a mutable reference.
    MutableReference,
    /// The argument is a reference to something other than a path.
    ReferenceWithoutPath,
    /// The argument is neither a path nor a reference.
    NeitherPathNorReference,
    /// The argument is of a type of this name, which is no big unsigned number.
    NotBigUint(String),
}

/// Whether the type of the name `name` can take a payment: only the big unsigned
/// number can.
pub open spec fn payment_type_named(name: String) -> Result<(), PaymentArgError> {
    if name@ == "BigUint"@ {
        Ok(())
    } else {
        Err(PaymentArgError::NotBigUint(name))
    }
}

/// Whether an argument of type `ty` can take the payment of a call. It can where
/// it is a big unsigned number, by value or behind a shared reference.
pub open spec fn payment_arg(ty: ArgType) -> Result<(), PaymentArgError> {
    match ty {
        ArgType::Path(name) => payment_type_named(name),
        ArgType::Reference { mutable, elem } => if mutable {
            Err(PaymentArgError::MutableReference)
        } else {
            match *elem {
                ArgType::Path(name) => payment_type_named(name),
                _ => Err(PaymentArgError::ReferenceWithoutPath),
            }
        },
        ArgType::Other => Err(PaymentArgError::NeitherPathNorReference),
    }
}

/// Decides whether the type of the name `name` can take a payment.
pub fn check_payment_type_name(name: String) -> (r: Result<(), PaymentArgError>)
    ensures
        r == payment_type_named(name),
{
    let expected = "BigUint".to_owned();
    if name == expected {
        Ok(())
    } else {
        Err(PaymentArgError::NotBigUint(name))
    }
}

/// Decides whether an argument of type `ty` can take the payment of a call.
pub fn check_payment_arg(ty: ArgType) -> (r: Result<(), PaymentArgError>)
    ensures
        r == payment_arg(ty),
{
    match ty {
        ArgType::Path(name) => check_payment_type_name(name),
        ArgType::Reference { mutable, elem } => {
            if mutable {
                Err(PaymentArgError::MutableReference)
            } else {
                match *elem {
                    ArgType::Path(name) => check_payment_type_name(name),
                    _ => Err(PaymentArgError::ReferenceWithoutPath),
                }
            }
        },
        ArgType::Other => Err(PaymentArgError::NeitherPathNorReference),
    }
}

} // verus!
