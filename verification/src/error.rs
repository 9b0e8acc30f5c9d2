//! Errors of the engine and the texts they are shown with.

use vstd::prelude::*;

use crate::text;
use crate::text::{decimal, prefixed_hex};
use crate::wire::ConversionError;

verus! {

/// Errors of buffer handling.
#[derive(Debug, Clone, Copy, PartialEq, Eq, Structural)]
pub enum BufferError {
    Alignment { ptr: usize, len: usize, required: usize },
    ValidityShape { bitmap_len: usize, row_count: usize },
    AllocationFailed { bytes: usize },
}

impl BufferError {
    /// The text shown for the error.
    pub open spec fn text(self) -> Seq<char> {
        match self {
            BufferError::Alignment { ptr, len, required } => "alignment violation: pointer "@
                + prefixed_hex(ptr as nat) + " length "@ + decimal(len as nat)
                + " required alignment "@ + decimal(required as nat),
            BufferError::ValidityShape { bitmap_len, row_count } =>
                "validity bitmap shape mismatch: bitmap len "@ + decimal(bitmap_len as nat)
                + " for "@ + decimal(row_count as nat) + " rows"@,
            BufferError::AllocationFailed { bytes } => "MTLBuffer allocation failed (requested "@
                + decimal(bytes as nat) + " bytes)"@,
        }
    }

    /// The text shown for the error.
    pub fn message(&self) -> (r: String)
        ensures
            r@ == self.text(),
    {
        let mut out: String = String::new();
        match *self {
            BufferError::Alignment { ptr, len, required } => {
                out.append("alignment violation: pointer ");
                text::push_hex(&mut out, ptr as u128);
                out.append(" length ");
                text::push_decimal(&mut out, len as u128);
                out.append(" required alignment ");
                text::push_decimal(&mut out, required as u128);
            },
            BufferError::ValidityShape { bitmap_len, row_count } => {
                out.append("validity bitmap shape mismatch: bitmap len ");
                text::push_decimal(&mut out, bitmap_len as u128);
                out.append(" for ");
                text::push_decimal(&mut out, row_count as u128);
                out.append(" rows");
            },
            BufferError::AllocationFailed { bytes } => {
                out.append("MTLBuffer allocation failed (requested ");
                text::push_decimal(&mut out, bytes as u128);
                out.append(" bytes)");
            },
        }
        assert(out@ =~= self.text());
        out
    }
}

/// Errors of the engine. A failure inside the array library is carried by its
/// text.
#[derive(Debug)]
pub enum EngineError {
    Buffer(BufferError),
    Ffi(String),
    Other(String),
}

impl EngineError {
    /// The text shown for the error.
    pub open spec fn text(self) -> Seq<char> {
        match self {
            EngineError::Buffer(e) => "buffer: "@ + e.text(),
            EngineError::Ffi(s) => "ffi: "@ + s@,
            EngineError::Other(s) => "engine: "@ + s@,
        }
    }

    /// The text shown for the error.
    pub fn message(&self) -> (r: String)
        ensures
            r@ == self.text(),
    {
        match self {
            EngineError::Buffer(e) => {
                let mut out: String = "buffer: ".to_owned();
                let detail: String = e.message();
                out.append(detail.as_str());
                out
            },
            EngineError::Ffi(s) => {
                let mut out: String = "ffi: ".to_owned();
                out.append(s.as_str());
                out
            },
            EngineError::Other(s) => {
                let mut out: String = "engine: ".to_owned();
                out.append(s.as_str());
                out
            },
        }
    }

    /// The text of the exception that the error is raised as.
    pub fn exception_text(&self) -> (r: String)
        ensures
            r@ == "polars-metal: "@ + self.text(),
    {
        let mut out: String = "polars-metal: ".to_owned();
        let detail: String = self.message();
        out.append(detail.as_str());
        out
    }
}

impl From<BufferError> for EngineError {
    fn from(e: BufferError) -> (r: EngineError) {
        EngineError::Buffer(e)
    }
}

impl vstd::std_specs::convert::FromSpecImpl<BufferError> for EngineError {
    open spec fn obeys_from_spec() -> bool {
        true
    }

    open spec fn from_spec(e: BufferError) -> EngineError {
        EngineError::Buffer(e)
    }
}

/// A failure raised to the Python side: the exception's class and its text. A
/// failed conversion of a received value carries what was asked for; the
/// binding layer words it.
#[derive(Debug)]
pub enum Failure {
    Key(String),
    Value(String),
    Type(String),
    NotImplemented(String),
    Runtime(String),
    Conversion(ConversionError),
}

/// The content of a [`Failure`].
pub enum Fault {
    Key(Seq<char>),
    Value(Seq<char>),
    Type(Seq<char>),
    NotImplemented(Seq<char>),
    Runtime(Seq<char>),
    Conversion(ConversionError),
}

impl View for Failure {
    type V = Fault;

    open spec fn view(&self) -> Fault {
        match *self {
            Failure::Key(s) => Fault::Key(s@),
            Failure::Value(s) => Fault::Value(s@),
            Failure::Type(s) => Fault::Type(s@),
            Failure::NotImplemented(s) => Fault::NotImplemented(s@),
            Failure::Runtime(s) => Fault::Runtime(s@),
            Failure::Conversion(c) => Fault::Conversion(c),
        }
    }
}

/// A result with its failure reduced to content.
pub open spec fn outcome<T>(r: Result<T, Failure>) -> Result<T, Fault> {
    match r {
        Ok(v) => Ok(v),
        Err(e) => Err(e@),
    }
}

} // verus!
