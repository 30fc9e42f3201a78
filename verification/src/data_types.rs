//! Numeric type codes: the runtime API's element types, the
//! interchange format's type codes, and the mapping between them.

use vstd::prelude::*;

use crate::error::ConversionError;

verus! {

/// An element type of the runtime operand API.
#[derive(Debug, Clone, Copy, PartialEq, Eq, Structural)]
pub enum DataType {
    Float32,
    Float16,
    Int32,
    Uint32,
    Int64,
    Uint64,
    Int8,
    Uint8,
}

/// An element type of the graph-interchange format, identified on the
/// wire by an integer code.
#[derive(Debug, Clone, Copy, PartialEq, Eq, Structural)]
pub enum ProtoDataType {
    Undefined,
    Float,
    Uint8,
    Int8,
    Uint16,
    Int16,
    Int32,
    Int64,
    Bool,
    Float16,
    Double,
    Uint32,
    Uint64,
    Bfloat16,
}

/// The wire code of an interchange element type.
pub open spec fn spec_proto_code(t: ProtoDataType) -> i32 {
    match t {
        ProtoDataType::Undefined => 0,
        ProtoDataType::Float => 1,
        ProtoDataType::Uint8 => 2,
        ProtoDataType::Int8 => 3,
        ProtoDataType::Uint16 => 4,
        ProtoDataType::Int16 => 5,
        ProtoDataType::Int32 => 6,
        ProtoDataType::Int64 => 7,
        ProtoDataType::Bool => 9,
        ProtoDataType::Float16 => 10,
        ProtoDataType::Double => 11,
        ProtoDataType::Uint32 => 12,
        ProtoDataType::Uint64 => 13,
        ProtoDataType::Bfloat16 => 16,
    }
}

/// The interchange element type for a wire code, if the code is known.
pub open spec fn spec_proto_from_code(code: i32) -> Option<ProtoDataType> {
    if code == 0 {
        Some(ProtoDataType::Undefined)
    } else if code == 1 {
        Some(ProtoDataType::Float)
    } else if code == 2 {
        Some(ProtoDataType::Uint8)
    } else if code == 3 {
        Some(ProtoDataType::Int8)
    } else if code == 4 {
        Some(ProtoDataType::Uint16)
    } else if code == 5 {
        Some(ProtoDataType::Int16)
    } else if code == 6 {
        Some(ProtoDataType::Int32)
    } else if code == 7 {
        Some(ProtoDataType::Int64)
    } else if code == 9 {
        Some(ProtoDataType::Bool)
    } else if code == 10 {
        Some(ProtoDataType::Float16)
    } else if code == 11 {
        Some(ProtoDataType::Double)
    } else if code == 12 {
        Some(ProtoDataType::Uint32)
    } else if code == 13 {
        Some(ProtoDataType::Uint64)
    } else if code == 16 {
        Some(ProtoDataType::Bfloat16)
    } else {
        None
    }
}

impl ProtoDataType {
    /// The wire code of this element type.
    pub fn code(self) -> (r: i32)
        ensures
            r == spec_proto_code(self),
    {
        match self {
            ProtoDataType::Undefined => 0,
            ProtoDataType::Float => 1,
            ProtoDataType::Uint8 => 2,
            ProtoDataType::Int8 => 3,
            ProtoDataType::Uint16 => 4,
            ProtoDataType::Int16 => 5,
            ProtoDataType::Int32 => 6,
            ProtoDataType::Int64 => 7,
            ProtoDataType::Bool => 9,
            ProtoDataType::Float16 => 10,
            ProtoDataType::Double => 11,
            ProtoDataType::Uint32 => 12,
            ProtoDataType::Uint64 => 13,
            ProtoDataType::Bfloat16 => 16,
        }
    }

    /// Decodes a wire code, if it names a known element type.
    pub fn from_code(code: i32) -> (r: Option<ProtoDataType>)
        ensures
            r == spec_proto_from_code(code),
    {
        if code == 0 {
            Some(ProtoDataType::Undefined)
        } else if code == 1 {
            Some(ProtoDataType::Float)
        } else if code == 2 {
            Some(ProtoDataType::Uint8)
        } else if code == 3 {
            Some(ProtoDataType::Int8)
        } else if code == 4 {
            Some(ProtoDataType::Uint16)
        } else if code == 5 {
            Some(ProtoDataType::Int16)
        } else if code == 6 {
            Some(ProtoDataType::Int32)
        } else if code == 7 {
            Some(ProtoDataType::Int64)
        } else if code == 9 {
            Some(ProtoDataType::Bool)
        } else if code == 10 {
            Some(ProtoDataType::Float16)
        } else if code == 11 {
            Some(ProtoDataType::Double)
        } else if code == 12 {
            Some(ProtoDataType::Uint32)
        } else if code == 13 {
            Some(ProtoDataType::Uint64)
        } else if code == 16 {
            Some(ProtoDataType::Bfloat16)
        } else {
            None
        }
    }
}

/// The interchange element type for a runtime element type.
pub open spec fn spec_webnn_to_onnx(t: DataType) -> ProtoDataType {
    match t {
        DataType::Float32 => ProtoDataType::Float,
        DataType::Float16 => ProtoDataType::Float16,
        DataType::Int32 => ProtoDataType::Int32,
        DataType::Uint32 => ProtoDataType::Uint32,
        DataType::Int64 => ProtoDataType::Int64,
        DataType::Uint64 => ProtoDataType::Uint64,
        DataType::Int8 => ProtoDataType::Int8,
        DataType::Uint8 => ProtoDataType::Uint8,
    }
}

/// The runtime element type for an interchange element type, if the
/// latter is supported by the runtime API.
pub open spec fn spec_onnx_proto_to_webnn(t: ProtoDataType) -> Option<DataType> {
    match t {
        ProtoDataType::Float => Some(DataType::Float32),
        ProtoDataType::Float16 => Some(DataType::Float16),
        ProtoDataType::Int32 => Some(DataType::Int32),
        ProtoDataType::Uint32 => Some(DataType::Uint32),
        ProtoDataType::Int64 => Some(DataType::Int64),
        ProtoDataType::Uint64 => Some(DataType::Uint64),
        ProtoDataType::Int8 => Some(DataType::Int8),
        ProtoDataType::Uint8 => Some(DataType::Uint8),
        _ => None,
    }
}

/// Maps a runtime element type to its interchange counterpart.
pub fn webnn_to_onnx(webnn_type: DataType) -> (r: ProtoDataType)
    ensures
        r == spec_webnn_to_onnx(webnn_type),
{
    match webnn_type {
        DataType::Float32 => ProtoDataType::Float,
        DataType::Float16 => ProtoDataType::Float16,
        DataType::Int32 => ProtoDataType::Int32,
        DataType::Uint32 => ProtoDataType::Uint32,
        DataType::Int64 => ProtoDataType::Int64,
        DataType::Uint64 => ProtoDataType::Uint64,
        DataType::Int8 => ProtoDataType::Int8,
        DataType::Uint8 => ProtoDataType::Uint8,
    }
}

/// Maps an interchange element type to its runtime counterpart, or
/// reports the unsupported wire code.
pub fn onnx_proto_to_webnn(proto_type: ProtoDataType) -> (r: Result<DataType, ConversionError>)
    ensures
        match r {
            Ok(t) => spec_onnx_proto_to_webnn(proto_type) == Some(t),
            Err(e) => spec_onnx_proto_to_webnn(proto_type) is None && e
                == ConversionError::UnsupportedOnnxDataType(spec_proto_code(proto_type)),
        },
{
    match proto_type {
        ProtoDataType::Float => Ok(DataType::Float32),
        ProtoDataType::Float16 => Ok(DataType::Float16),
        ProtoDataType::Int32 => Ok(DataType::Int32),
        ProtoDataType::Uint32 => Ok(DataType::Uint32),
        ProtoDataType::Int64 => Ok(DataType::Int64),
        ProtoDataType::Uint64 => Ok(DataType::Uint64),
        ProtoDataType::Int8 => Ok(DataType::Int8),
        ProtoDataType::Uint8 => Ok(DataType::Uint8),
        other => Err(ConversionError::UnsupportedOnnxDataType(other.code())),
    }
}

/// Decodes a wire code and maps it to the runtime element type, or
/// reports the unsupported code.
pub fn onnx_to_webnn(onnx_type_code: i32) -> (r: Result<DataType, ConversionError>)
    ensures
        match r {
            Ok(t) => spec_proto_from_code(onnx_type_code) is Some && spec_onnx_proto_to_webnn(
                spec_proto_from_code(onnx_type_code).unwrap(),
            ) == Some(t),
            Err(e) => (spec_proto_from_code(onnx_type_code) is None || spec_onnx_proto_to_webnn(
                spec_proto_from_code(onnx_type_code).unwrap(),
            ) is None) && e == ConversionError::UnsupportedOnnxDataType(onnx_type_code),
        },
{
    match ProtoDataType::from_code(onnx_type_code) {
        Some(proto) => {
            proof {
                assert(spec_proto_code(spec_proto_from_code(onnx_type_code).unwrap())
                    == onnx_type_code);
            }
            onnx_proto_to_webnn(proto)
        },
        None => Err(ConversionError::UnsupportedOnnxDataType(onnx_type_code)),
    }
}

} // verus!
