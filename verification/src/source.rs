//! The enumeration cursor and the reading of what one enumeration request
//! came back with. The request itself is made by the caller, who hands the
//! response in; everything decided about it is decided here.

use vstd::prelude::*;
use crate::record::{RawBuffer, TOKEN_LEN};
use crate::wire::le_u64;

verus! {

/// The status with which the volume says that the enumeration is complete.
pub const END_OF_DATA: u32 = 38;

/// The size of the output buffer that a request should offer, in bytes.
pub const BUFFER_CAPACITY: u32 = 32768;

/// The facility under which a result code carries a system status.
pub const SYSTEM_FACILITY: u32 = 0x8007;

/// The system status inside a result code: its low half where the high half
/// names the system facility, else the code as it is.
pub open spec fn status_of(code: u32) -> u32 {
    if code / 65536 == SYSTEM_FACILITY {
        (code % 65536) as u32
    } else {
        code
    }
}

/// Computes the system status inside a result code.
pub fn status_of_code(code: u32) -> (status: u32)
    ensures
        status == status_of(code),
{
    if code / 65536 == SYSTEM_FACILITY {
        code % 65536
    } else {
        code
    }
}

/// The state of the change journal, as far as the enumeration needs it.
#[derive(Clone, Copy, Debug, PartialEq, Eq, Structural)]
pub struct JournalDescriptor {
    pub max_usn: i64,
    pub journal_id: u64,
}

/// What one enumeration request came back with.
#[derive(Debug)]
pub enum FetchResponse {
    /// The request succeeded and filled `bytes_returned` bytes of `bytes`.
    Filled { bytes: Vec<u8>, bytes_returned: u32 },
    /// The request failed with this status.
    Failed { status: u32 },
}

/// A fatal failure of the enumeration.
#[derive(Clone, Copy, Debug, PartialEq, Eq, Structural)]
pub enum EnumerationError {
    /// The request failed with a status other than `END_OF_DATA`.
    Device { status: u32 },
    /// The response claims more bytes than its buffer holds.
    LengthBeyondBuffer { bytes_returned: u32 },
    /// The response is too short to hold a continuation token.
    MissingToken { bytes_returned: u32 },
    /// The continuation token lies before the position already reached.
    TokenWentBack { token: u64 },
}

/// The three values that an enumeration request is made of.
pub struct CursorView {
    pub start_file_reference_number: u64,
    pub low_usn: i64,
    pub high_usn: i64,
}

/// Where the enumeration stands. The start position is taken from the
/// continuation token of the last response and never moves back.
#[derive(Clone, Copy, Debug)]
pub struct EnumerationCursor {
    start_file_reference_number: u64,
    low_usn: i64,
    high_usn: i64,
}

impl View for EnumerationCursor {
    type V = CursorView;

    closed spec fn view(&self) -> CursorView {
        CursorView {
            start_file_reference_number: self.start_file_reference_number,
            low_usn: self.low_usn,
            high_usn: self.high_usn,
        }
    }
}

/// What a response means to a cursor that stands at `start`: the valid bytes
/// of a buffer, the end of the enumeration (`None`), or a fatal failure.
pub open spec fn classify(start: u64, response: FetchResponse) -> Result<
    Option<Seq<u8>>,
    EnumerationError,
> {
    match response {
        FetchResponse::Failed { status } => if status == END_OF_DATA {
            Ok(None)
        } else {
            Err(EnumerationError::Device { status })
        },
        FetchResponse::Filled { bytes, bytes_returned } => if bytes_returned > bytes@.len() {
            Err(EnumerationError::LengthBeyondBuffer { bytes_returned })
        } else if bytes_returned < TOKEN_LEN {
            Err(EnumerationError::MissingToken { bytes_returned })
        } else if le_u64(bytes@, 0) < start {
            Err(EnumerationError::TokenWentBack { token: le_u64(bytes@, 0) as u64 })
        } else {
            Ok(Some(bytes@.take(bytes_returned as int)))
        },
    }
}

/// Where a cursor that stood at `start` stands after a response: at the
/// continuation token of a buffer that was accepted, else where it stood.
pub open spec fn start_after(start: u64, response: FetchResponse) -> u64 {
    match classify(start, response) {
        Ok(Some(valid)) => le_u64(valid, 0) as u64,
        _ => start,
    }
}

/// The valid bytes of the buffer in a result of `next_buffer`.
pub open spec fn delivered(r: Result<Option<RawBuffer>, EnumerationError>) -> Result<
    Option<Seq<u8>>,
    EnumerationError,
> {
    match r {
        Ok(Some(buffer)) => Ok(Some(buffer@)),
        Ok(None) => Ok(None),
        Err(e) => Err(e),
    }
}

impl EnumerationCursor {
    /// The cursor of a new enumeration: from the first file on, over every
    /// sequence number up to the journal's maximum.
    pub fn new(journal: &JournalDescriptor) -> (cursor: EnumerationCursor)
        ensures
            cursor@ == (CursorView {
                start_file_reference_number: 0,
                low_usn: 0,
                high_usn: journal.max_usn,
            }),
    {
        EnumerationCursor { start_file_reference_number: 0, low_usn: 0, high_usn: journal.max_usn }
    }

    /// The file reference number at which the next request starts.
    pub fn start_file_reference_number(&self) -> (n: u64)
        ensures
            n == self@.start_file_reference_number,
    {
        self.start_file_reference_number
    }

    /// The lower bound of the sequence numbers asked for.
    pub fn low_usn(&self) -> (n: i64)
        ensures
            n == self@.low_usn,
    {
        self.low_usn
    }

    /// The upper bound of the sequence numbers asked for.
    pub fn high_usn(&self) -> (n: i64)
        ensures
            n == self@.high_usn,
    {
        self.high_usn
    }

    /// Reads the response to the request that was made with this cursor.
    /// A buffer is handed on and the cursor moves to its continuation token;
    /// the end of the enumeration is `None`; anything else is a failure, and
    /// then the cursor stays where it was.
    pub fn next_buffer(&mut self, response: FetchResponse) -> (r: Result<
        Option<RawBuffer>,
        EnumerationError,
    >)
        ensures
            delivered(r) == classify(old(self)@.start_file_reference_number, response),
            final(self)@ == (CursorView {
                start_file_reference_number: start_after(
                    old(self)@.start_file_reference_number,
                    response,
                ),
                ..old(self)@
            }),
            final(self)@.start_file_reference_number >= old(self)@.start_file_reference_number,
    {
        match response {
            FetchResponse::Failed { status } => {
                if status == END_OF_DATA {
                    Ok(None)
                } else {
                    Err(EnumerationError::Device { status })
                }
            },
            FetchResponse::Filled { bytes, bytes_returned } => {
                let buffer = match RawBuffer::new(bytes, bytes_returned) {
                    Some(buffer) => buffer,
                    None => {
                        return Err(EnumerationError::LengthBeyondBuffer { bytes_returned });
                    },
                };
                let token: u64 = match buffer.token() {
                    Some(token) => token,
                    None => {
                        return Err(EnumerationError::MissingToken { bytes_returned });
                    },
                };
                if token < self.start_file_reference_number {
                    return Err(EnumerationError::TokenWentBack { token });
                }
                self.start_file_reference_number = token;
                Ok(Some(buffer))
            },
        }
    }
}

} // verus!
