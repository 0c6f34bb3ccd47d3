//! The return value encoder: one buffer that tells the host how a call
//! ended and what it produced.
//!
//! The buffer's payload is a four-byte big-endian status code followed by
//! the value codec's encoding of what the call carries back. Status `0` is
//! success; an error travels as its own code and its message as a string. A
//! null success carries nothing: its payload ends after the status code.
//!
//! The value codec runs between the two steps here: [`ReturnValue`] says
//! which value it has to encode, [`Outcome::payload`] takes the encoding.

use crate::error::{Error, ErrorView};
use crate::memory::{
    buffer_at, holds_buffer, keeps_buffers, length_prefixed, LinearMemory, Pointer, Referenceable,
};
use crate::numeric::{u32_bytes, u32_to_u8_vec};
use crate::value::{Value, ValueView};
use vstd::prelude::*;
use vstd::slice::slice_to_vec;

verus! {

/// The status code of a call result: `0` for success, the error's code
/// otherwise.
pub open spec fn status_of(result: Result<ValueView, ErrorView>) -> u32 {
    match result {
        Ok(_) => 0,
        Err(error) => error.code,
    }
}

/// The value that a call result sends through the value codec: the success
/// value unless it is null, or the error's message as a string.
pub open spec fn carried_by(result: Result<ValueView, ErrorView>) -> Option<ValueView> {
    match result {
        Ok(ValueView::Null) => None,
        Ok(value) => Some(value),
        Err(error) => Some(ValueView::String(error.message)),
    }
}

/// The payload of the return buffer for a status code and what is carried,
/// where `encoded` is the value codec's encoding of the carried value.
pub open spec fn return_payload(status: u32, carried: Option<ValueView>, encoded: Seq<u8>) -> Seq<
    u8,
> {
    if carried is None {
        u32_bytes(status, true)
    } else {
        u32_bytes(status, true) + encoded
    }
}

/// A call result taken apart for the way back: the status code, and the
/// value that still has to pass through the value codec.
#[derive(Debug)]
pub struct Outcome {
    status: u32,
    carried: Option<Value>,
}

/// The mathematical content of an [`Outcome`].
pub ghost struct OutcomeView {
    pub status: u32,
    pub carried: Option<ValueView>,
}

impl View for Outcome {
    type V = OutcomeView;

    closed spec fn view(&self) -> OutcomeView {
        OutcomeView {
            status: self.status,
            carried: match self.carried {
                Some(value) => Some(value@),
                None => None,
            },
        }
    }
}

impl Outcome {
    /// The status code: `0` for a success, the error's code otherwise.
    pub fn status(&self) -> (status: u32)
        ensures
            status == self@.status,
    {
        self.status
    }

    /// The value that the value codec has to encode, if there is one.
    pub fn carried(&self) -> (carried: Option<&Value>)
        ensures
            carried is Some <==> self@.carried is Some,
            carried matches Some(value) ==> self@.carried == Some(value@),
    {
        self.carried.as_ref()
    }

    /// The payload of the return buffer. `encoded` is the value codec's
    /// encoding of the carried value; where nothing is carried it is not
    /// looked at.
    pub fn payload(&self, encoded: &[u8]) -> (payload: Vec<u8>)
        ensures
            payload@ == return_payload(self@.status, self@.carried, encoded@),
    {
        let mut payload = u32_to_u8_vec(self.status, true);
        if self.carried.is_some() {
            let mut rest = slice_to_vec(encoded);
            payload.append(&mut rest);
        }
        payload
    }

    /// Writes the return buffer at the end of `memory` and returns where
    /// it starts. `encoded` is the value codec's encoding of the carried
    /// value, as for [`Outcome::payload`].
    pub fn as_pointer(&self, encoded: &[u8], memory: &mut LinearMemory) -> (ptr: Pointer)
        requires
            return_payload(self@.status, self@.carried, encoded@).len() <= u32::MAX,
        ensures
            ptr == old(memory)@.len(),
            final(memory)@ == old(memory)@ + length_prefixed(
                return_payload(self@.status, self@.carried, encoded@),
            ),
            holds_buffer(final(memory)@, ptr as int),
            buffer_at(final(memory)@, ptr as int) == return_payload(
                self@.status,
                self@.carried,
                encoded@,
            ),
            keeps_buffers(old(memory)@, final(memory)@),
    {
        self.payload(encoded).as_pointer(memory)
    }
}

/// The mathematical content of a call result.
pub open spec fn result_view(result: Result<Value, Error>) -> Result<ValueView, ErrorView> {
    match result {
        Ok(value) => Ok(value@),
        Err(error) => Err(error@),
    }
}

/// A call result that can be sent back to the host.
pub trait ReturnValue: Sized {
    /// The result with its success value as a structured value.
    spec fn call_result(&self) -> Result<ValueView, ErrorView>;

    /// Takes the result apart into its status code and the value that the
    /// value codec has to encode. The status is `0` exactly for a success.
    fn to_return_value(self) -> (outcome: Outcome)
        ensures
            outcome@.status == status_of(self.call_result()),
            outcome@.carried == carried_by(self.call_result()),
            outcome@.status == 0 <==> self.call_result() is Ok,
    ;
}

impl ReturnValue for Result<Value, Error> {
    open spec fn call_result(&self) -> Result<ValueView, ErrorView> {
        result_view(*self)
    }

    fn to_return_value(self) -> (outcome: Outcome) {
        match self {
            Ok(Value::Null) => Outcome { status: 0, carried: None },
            Ok(value) => Outcome { status: 0, carried: Some(value) },
            Err(error) => {
                let (code, message) = error.into_parts();
                Outcome { status: code, carried: Some(Value::String(message)) }
            },
        }
    }
}

impl ReturnValue for Result<(), Error> {
    open spec fn call_result(&self) -> Result<ValueView, ErrorView> {
        match *self {
            Ok(_) => Ok(ValueView::Null),
            Err(error) => Err(error@),
        }
    }

    fn to_return_value(self) -> (outcome: Outcome) {
        match self {
            Ok(_) => Ok::<Value, Error>(Value::Null).to_return_value(),
            Err(error) => Err::<Value, Error>(error).to_return_value(),
        }
    }
}

impl ReturnValue for Result<u32, Error> {
    open spec fn call_result(&self) -> Result<ValueView, ErrorView> {
        match *self {
            Ok(value) => Ok(ValueView::Int(value as u64)),
            Err(error) => Err(error@),
        }
    }

    fn to_return_value(self) -> (outcome: Outcome) {
        match self {
            Ok(value) => Ok::<Value, Error>(Value::Int(value as u64)).to_return_value(),
            Err(error) => Err::<Value, Error>(error).to_return_value(),
        }
    }
}

impl ReturnValue for Result<Vec<u8>, Error> {
    open spec fn call_result(&self) -> Result<ValueView, ErrorView> {
        match *self {
            Ok(value) => Ok(ValueView::Bytes(value@)),
            Err(error) => Err(error@),
        }
    }

    fn to_return_value(self) -> (outcome: Outcome) {
        match self {
            Ok(value) => Ok::<Value, Error>(Value::Bytes(value)).to_return_value(),
            Err(error) => Err::<Value, Error>(error).to_return_value(),
        }
    }
}

/// A null success comes back as four zero bytes and nothing else, whatever
/// the value codec would have made of it.
pub proof fn lemma_null_success_payload(encoded: Seq<u8>)
    ensures
        return_payload(
            status_of(Ok(ValueView::Null)),
            carried_by(Ok(ValueView::Null)),
            encoded,
        ) == seq![0u8, 0u8, 0u8, 0u8],
{
    assert(u32_bytes(0, true) =~= seq![0u8, 0u8, 0u8, 0u8]);
}

/// The first four bytes of a return payload are the status code, most
/// significant byte first, and the encoding of what is carried follows
/// them unchanged.
pub proof fn lemma_return_payload_parts(
    result: Result<ValueView, ErrorView>,
    encoded: Seq<u8>,
)
    ensures
        ({
            let payload = return_payload(status_of(result), carried_by(result), encoded);
            &&& payload.len() >= 4
            &&& crate::numeric::u32_value(payload.subrange(0, 4), true) == status_of(result)
            &&& carried_by(result) is Some ==> payload.subrange(4, payload.len() as int)
                == encoded
            &&& carried_by(result) is None ==> payload.len() == 4
        }),
{
    let payload = return_payload(status_of(result), carried_by(result), encoded);
    crate::numeric::lemma_u32_round_trip(status_of(result), true);
    assert(payload.subrange(0, 4) =~= u32_bytes(status_of(result), true));
    if carried_by(result) is Some {
        assert(payload.subrange(4, payload.len() as int) =~= encoded);
    }
}

} // verus!
