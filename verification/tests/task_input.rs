use coroutine_system::value::CoroutineTaskInput;
use coroutine_system::value::DynValue;
use coroutine_system::value::FatalError;
use coroutine_system::value::Tag;

#[test]
fn result_with_matching_tag_succeeds() {
    let mut inp = CoroutineTaskInput::with_result(DynValue::Int(7));
    assert_eq!(inp.result(Tag::Int), Ok(DynValue::Int(7)));
    assert!(inp.async_result.is_none());
}

#[test]
fn result_with_text_payload() {
    let mut inp = CoroutineTaskInput::with_result(DynValue::Text(String::from("ok")));
    assert_eq!(inp.result(Tag::Text), Ok(DynValue::Text(String::from("ok"))));
}

#[test]
fn result_with_wrong_tag_is_fatal() {
    let mut inp = CoroutineTaskInput::with_result(DynValue::Int(7));
    assert_eq!(
        inp.result(Tag::Text),
        Err(FatalError::TypeMismatch { expected: Tag::Text, found: Tag::Int })
    );
    assert!(inp.async_result.is_none());
}

#[test]
fn result_without_payload_is_fatal() {
    let mut inp = CoroutineTaskInput::empty();
    assert_eq!(inp.result(Tag::Unit), Err(FatalError::MissingResult));
}

#[test]
fn discard_clears_the_envelope() {
    let mut inp = CoroutineTaskInput::with_result(DynValue::Bool(true));
    inp.discard();
    assert!(inp.async_result.is_none());
}
