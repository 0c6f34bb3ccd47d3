use wasm_rpc::error::Error;
use wasm_rpc::memory::{Dereferenceable, LinearMemory};
use wasm_rpc::numeric::u8_vec_to_u32;
use wasm_rpc::return_value::ReturnValue;
use wasm_rpc::value::Value;

/// What a CBOR encoder makes of the text "insufficient funds": the head
/// byte for a string of 18 bytes, then the bytes.
fn encoded_message() -> Vec<u8> {
    let mut encoded = vec![0x72];
    encoded.extend_from_slice(b"insufficient funds");
    encoded
}

#[test]
fn null_success_is_four_zero_bytes() {
    let result: Result<Value, Error> = Ok(Value::Null);
    let outcome = result.to_return_value();
    assert_eq!(outcome.status(), 0);
    assert!(outcome.carried().is_none());
    assert_eq!(outcome.payload(&[]), vec![0, 0, 0, 0]);
}

#[test]
fn null_success_ignores_any_encoding() {
    let result: Result<Value, Error> = Ok(Value::Null);
    let outcome = result.to_return_value();
    assert_eq!(outcome.payload(&[0xf6]), vec![0, 0, 0, 0]);
    let mut memory = LinearMemory::new();
    let ptr = outcome.as_pointer(&[0xf6], &mut memory);
    assert_eq!(memory.as_slice(), &[0u8, 0, 0, 4, 0, 0, 0, 0][..]);
    assert_eq!(ptr.as_raw_bytes(&memory), vec![0, 0, 0, 0]);
}

#[test]
fn error_travels_as_code_and_message() {
    let error = Error::new(5, String::from("insufficient funds")).unwrap();
    let result: Result<Value, Error> = Err(error);
    let outcome = result.to_return_value();
    assert_eq!(outcome.status(), 5);
    match outcome.carried() {
        Some(Value::String(message)) => assert_eq!(message, "insufficient funds"),
        _ => panic!("the message is carried as a string"),
    }
    let payload = outcome.payload(&encoded_message());
    assert_eq!(u8_vec_to_u32(payload[..4].to_vec(), true), 5);
    assert_eq!(payload[..4], [0u8, 0, 0, 5]);
    assert_eq!(payload[4..], encoded_message()[..]);
}

#[test]
fn error_buffer_in_memory() {
    let error = Error::new(5, String::from("insufficient funds")).unwrap();
    let outcome = Err::<Value, Error>(error).to_return_value();
    let mut memory = LinearMemory::new();
    let ptr = outcome.as_pointer(&encoded_message(), &mut memory);
    assert_eq!(ptr, 0);
    assert_eq!(memory.as_slice()[..4], [0u8, 0, 0, 23]);
    let payload = ptr.as_raw_bytes(&memory);
    assert_eq!(payload.len(), 23);
    assert_eq!(payload[..5], [0u8, 0, 0, 5, 0x72]);
    assert_eq!(&payload[5..], b"insufficient funds");
}

#[test]
fn success_value_follows_status_zero() {
    let result: Result<Value, Error> = Ok(Value::Int(42));
    let outcome = result.to_return_value();
    assert_eq!(outcome.status(), 0);
    assert!(matches!(outcome.carried(), Some(Value::Int(42))));
    assert_eq!(outcome.payload(&[0x18, 0x2a]), vec![0, 0, 0, 0, 0x18, 0x2a]);
}

#[test]
fn array_with_null_inside_is_carried() {
    let result: Result<Value, Error> = Ok(Value::Array(vec![Value::Null]));
    let outcome = result.to_return_value();
    match outcome.carried() {
        Some(Value::Array(items)) => {
            assert_eq!(items.len(), 1);
            assert!(matches!(items[0], Value::Null));
        }
        _ => panic!("the array is carried"),
    }
    assert_eq!(outcome.payload(&[0x81, 0xf6]), vec![0, 0, 0, 0, 0x81, 0xf6]);
}

#[test]
fn unit_success_is_a_null_success() {
    let result: Result<(), Error> = Ok(());
    let outcome = result.to_return_value();
    assert_eq!(outcome.status(), 0);
    assert!(outcome.carried().is_none());
    assert_eq!(outcome.payload(&[]), vec![0, 0, 0, 0]);
}

#[test]
fn number_success_is_carried_as_an_integer() {
    let result: Result<u32, Error> = Ok(7);
    let outcome = result.to_return_value();
    assert_eq!(outcome.status(), 0);
    assert!(matches!(outcome.carried(), Some(Value::Int(7))));
    let largest: Result<u32, Error> = Ok(u32::MAX);
    assert!(matches!(
        largest.to_return_value().carried(),
        Some(Value::Int(0xffff_ffff))
    ));
}

#[test]
fn bytes_success_is_carried_as_a_byte_string() {
    let result: Result<Vec<u8>, Error> = Ok(vec![1, 2, 3]);
    let outcome = result.to_return_value();
    assert_eq!(outcome.status(), 0);
    match outcome.carried() {
        Some(Value::Bytes(bytes)) => assert_eq!(bytes, &vec![1, 2, 3]),
        _ => panic!("the bytes are carried as a byte string"),
    }
    assert_eq!(
        outcome.payload(&[0x43, 1, 2, 3]),
        vec![0, 0, 0, 0, 0x43, 1, 2, 3]
    );
}

#[test]
fn errors_of_every_result_type_keep_their_code() {
    let unit: Result<(), Error> = Err(Error::new(1, String::from("a")).unwrap());
    assert_eq!(unit.to_return_value().status(), 1);
    let number: Result<u32, Error> = Err(Error::new(2, String::from("b")).unwrap());
    assert_eq!(number.to_return_value().status(), 2);
    let bytes: Result<Vec<u8>, Error> = Err(Error::new(u32::MAX, String::from("c")).unwrap());
    let outcome = bytes.to_return_value();
    assert_eq!(outcome.status(), u32::MAX);
    assert_eq!(outcome.payload(&[0x61, b'c']), vec![255, 255, 255, 255, 0x61, b'c']);
    match outcome.carried() {
        Some(Value::String(message)) => assert_eq!(message, "c"),
        _ => panic!("the message is carried as a string"),
    }
}

#[test]
fn no_error_has_code_zero() {
    assert!(Error::new(0, String::from("nothing went wrong")).is_none());
    let error = Error::new(1, String::from("something did")).unwrap();
    assert_eq!(error.code(), 1);
    assert_eq!(error.message(), "something did");
    let (code, message) = error.into_parts();
    assert_eq!((code, message.as_str()), (1, "something did"));
}
