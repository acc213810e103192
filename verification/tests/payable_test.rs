use elrond_codec::payable::{
    check_payment_arg, check_payment_type_name, method_payable_metadata,
    payable_snippet_for_metadata, ArgType, MethodKind, MethodPayableMetadata, PayableSnippet,
    PaymentArgError,
};

#[test]
fn ordinary_methods_say_what_payment_they_take() {
    assert_eq!(
        method_payable_metadata(MethodKind::Regular(MethodPayableMetadata::Egld)),
        MethodPayableMetadata::Egld
    );
    assert_eq!(
        method_payable_metadata(MethodKind::Regular(MethodPayableMetadata::SingleEsdtToken(
            "TOKEN-123456".to_string()
        ))),
        MethodPayableMetadata::SingleEsdtToken("TOKEN-123456".to_string())
    );
    assert_eq!(
        method_payable_metadata(MethodKind::Regular(MethodPayableMetadata::AnyToken)),
        MethodPayableMetadata::AnyToken
    );
    assert_eq!(
        method_payable_metadata(MethodKind::Regular(MethodPayableMetadata::NoMetadata)),
        MethodPayableMetadata::NoMetadata
    );
}

#[test]
fn storage_accessors_take_no_payment() {
    for kind in [
        MethodKind::StorageGetter,
        MethodKind::StorageSetter,
        MethodKind::StorageGetMut,
        MethodKind::StorageIsEmpty,
        MethodKind::StorageClear,
    ] {
        assert_eq!(method_payable_metadata(kind), MethodPayableMetadata::NotPayable);
    }
}

#[test]
fn other_methods_say_nothing_about_payment() {
    for kind in [
        MethodKind::Event,
        MethodKind::Callback,
        MethodKind::CallbackRaw,
        MethodKind::Module,
    ] {
        assert_eq!(method_payable_metadata(kind), MethodPayableMetadata::NoMetadata);
    }
}

#[test]
fn entry_points_check_the_payment() {
    assert_eq!(
        payable_snippet_for_metadata(MethodPayableMetadata::NoMetadata),
        PayableSnippet::Nothing
    );
    assert_eq!(
        payable_snippet_for_metadata(MethodPayableMetadata::NotPayable),
        PayableSnippet::CheckNotPayable
    );
    assert_eq!(
        payable_snippet_for_metadata(MethodPayableMetadata::Egld),
        PayableSnippet::RequireEgld
    );
    assert_eq!(
        payable_snippet_for_metadata(MethodPayableMetadata::SingleEsdtToken("TOKEN".to_string())),
        PayableSnippet::RequireEsdt("TOKEN".to_string())
    );
    assert_eq!(
        payable_snippet_for_metadata(MethodPayableMetadata::AnyToken),
        PayableSnippet::Nothing
    );
    assert_eq!(
        MethodPayableMetadata::SingleEsdtToken("TOKEN".to_string()).clone(),
        MethodPayableMetadata::SingleEsdtToken("TOKEN".to_string())
    );
}

#[test]
fn payment_arguments_are_big_unsigned_numbers() {
    assert_eq!(check_payment_type_name("BigUint".to_string()), Ok(()));
    assert_eq!(
        check_payment_type_name("u64".to_string()),
        Err(PaymentArgError::NotBigUint("u64".to_string()))
    );
    assert_eq!(check_payment_arg(ArgType::Path("BigUint".to_string())), Ok(()));
    assert_eq!(
        check_payment_arg(ArgType::Reference {
            mutable: false,
            elem: Box::new(ArgType::Path("BigUint".to_string())),
        }),
        Ok(())
    );
    assert_eq!(
        check_payment_arg(ArgType::Path("BigInt".to_string())),
        Err(PaymentArgError::NotBigUint("BigInt".to_string()))
    );
    assert_eq!(
        check_payment_arg(ArgType::Reference {
            mutable: false,
            elem: Box::new(ArgType::Path("Vec".to_string())),
        }),
        Err(PaymentArgError::NotBigUint("Vec".to_string()))
    );
    assert_eq!(
        check_payment_arg(ArgType::Reference {
            mutable: true,
            elem: Box::new(ArgType::Path("BigUint".to_string())),
        }),
        Err(PaymentArgError::MutableReference)
    );
    assert_eq!(
        check_payment_arg(ArgType::Reference {
            mutable: false,
            elem: Box::new(ArgType::Other),
        }),
        Err(PaymentArgError::ReferenceWithoutPath)
    );
    assert_eq!(
        check_payment_arg(ArgType::Reference {
            mutable: false,
            elem: Box::new(ArgType::Reference {
                mutable: false,
                elem: Box::new(ArgType::Path("BigUint".to_string())),
            }),
        }),
        Err(PaymentArgError::ReferenceWithoutPath)
    );
    assert_eq!(
        check_payment_arg(ArgType::Other),
        Err(PaymentArgError::NeitherPathNorReference)
    );
}
