//! The class-id codec: the closed enumeration of element classes that the
//! host runtime tags arrays with, its bijection with the native integer
//! encoding 0 through 16, and the per-class facts (storage width, whether a
//! class has a flat numeric buffer) that the rest of the library builds on.

use vstd::prelude::*;

verus! {

/// The host runtime's tag for an array's element type.
///
/// Decoding from the native integer code is total: codes outside 0..=16 map
/// to `Unknown`. Encoding gives every variant exactly one code.
#[derive(Clone, Copy, Debug, PartialEq, Eq, Structural)]
pub enum MxClassID {
    Unknown,
    Cell,
    Struct,
    Bool,
    Char,
    Unused,
    F64,
    F32,
    I8,
    U8,
    I16,
    U16,
    I32,
    U32,
    I64,
    U64,
    Function,
}

/// The native integer code of a class: the value the host runtime stores.
pub open spec fn code_of(c: MxClassID) -> int {
    match c {
        MxClassID::Unknown => 0,
        MxClassID::Cell => 1,
        MxClassID::Struct => 2,
        MxClassID::Bool => 3,
        MxClassID::Char => 4,
        MxClassID::Unused => 5,
        MxClassID::F64 => 6,
        MxClassID::F32 => 7,
        MxClassID::I8 => 8,
        MxClassID::U8 => 9,
        MxClassID::I16 => 10,
        MxClassID::U16 => 11,
        MxClassID::I32 => 12,
        MxClassID::U32 => 13,
        MxClassID::I64 => 14,
        MxClassID::U64 => 15,
        MxClassID::Function => 16,
    }
}

/// The class a native integer code decodes to. Total: unrecognized codes
/// decode to `Unknown` rather than failing.
pub open spec fn class_of(code: int) -> MxClassID {
    if code == 0 {
        MxClassID::Unknown
    } else if code == 1 {
        MxClassID::Cell
    } else if code == 2 {
        MxClassID::Struct
    } else if code == 3 {
        MxClassID::Bool
    } else if code == 4 {
        MxClassID::Char
    } else if code == 5 {
        MxClassID::Unused
    } else if code == 6 {
        MxClassID::F64
    } else if code == 7 {
        MxClassID::F32
    } else if code == 8 {
        MxClassID::I8
    } else if code == 9 {
        MxClassID::U8
    } else if code == 10 {
        MxClassID::I16
    } else if code == 11 {
        MxClassID::U16
    } else if code == 12 {
        MxClassID::I32
    } else if code == 13 {
        MxClassID::U32
    } else if code == 14 {
        MxClassID::I64
    } else if code == 15 {
        MxClassID::U64
    } else if code == 16 {
        MxClassID::Function
    } else {
        MxClassID::Unknown
    }
}

impl From<i32> for MxClassID {
    /// Decode a native class code; unrecognized codes yield `Unknown`.
    fn from(id: i32) -> (c: MxClassID) {
        match id {
            0 => MxClassID::Unknown,
            1 => MxClassID::Cell,
            2 => MxClassID::Struct,
            3 => MxClassID::Bool,
            4 => MxClassID::Char,
            5 => MxClassID::Unused,
            6 => MxClassID::F64,
            7 => MxClassID::F32,
            8 => MxClassID::I8,
            9 => MxClassID::U8,
            10 => MxClassID::I16,
            11 => MxClassID::U16,
            12 => MxClassID::I32,
            13 => MxClassID::U32,
            14 => MxClassID::I64,
            15 => MxClassID::U64,
            16 => MxClassID::Function,
            _ => MxClassID::Unknown,
        }
    }
}

impl vstd::std_specs::convert::FromSpecImpl<i32> for MxClassID {
    open spec fn obeys_from_spec() -> bool {
        true
    }

    open spec fn from_spec(id: i32) -> MxClassID {
        class_of(id as int)
    }
}

impl From<MxClassID> for i32 {
    /// Encode a class as its native integer code.
    fn from(c: MxClassID) -> (id: i32) {
        match c {
            MxClassID::Unknown => 0,
            MxClassID::Cell => 1,
            MxClassID::Struct => 2,
            MxClassID::Bool => 3,
            MxClassID::Char => 4,
            MxClassID::Unused => 5,
            MxClassID::F64 => 6,
            MxClassID::F32 => 7,
            MxClassID::I8 => 8,
            MxClassID::U8 => 9,
            MxClassID::I16 => 10,
            MxClassID::U16 => 11,
            MxClassID::I32 => 12,
            MxClassID::U32 => 13,
            MxClassID::I64 => 14,
            MxClassID::U64 => 15,
            MxClassID::Function => 16,
        }
    }
}

impl vstd::std_specs::convert::FromSpecImpl<MxClassID> for i32 {
    open spec fn obeys_from_spec() -> bool {
        true
    }

    open spec fn from_spec(c: MxClassID) -> i32 {
        code_of(c) as i32
    }
}

impl MxClassID {
    /// Whether arrays of this class carry a flat numeric buffer that a typed
    /// view can project. Cell, struct, character, function and unknown
    /// arrays do not; the reserved slot does not either.
    pub open spec fn spec_is_numeric(self) -> bool {
        match self {
            MxClassID::Bool
            | MxClassID::F64
            | MxClassID::F32
            | MxClassID::I8
            | MxClassID::U8
            | MxClassID::I16
            | MxClassID::U16
            | MxClassID::I32
            | MxClassID::U32
            | MxClassID::I64
            | MxClassID::U64 => true,
            _ => false,
        }
    }

    /// Executable form of `spec_is_numeric`.
    pub fn is_numeric(self) -> (b: bool)
        ensures
            b == self.spec_is_numeric(),
    {
        match self {
            MxClassID::Bool
            | MxClassID::F64
            | MxClassID::F32
            | MxClassID::I8
            | MxClassID::U8
            | MxClassID::I16
            | MxClassID::U16
            | MxClassID::I32
            | MxClassID::U32
            | MxClassID::I64
            | MxClassID::U64 => true,
            _ => false,
        }
    }

    /// Bytes of element storage per element of this class, in the library's
    /// model of the host buffer: the numeric classes store their machine
    /// width, a character element stores one byte of extracted text, and the
    /// classes without a flat buffer store nothing.
    pub open spec fn spec_element_size(self) -> nat {
        match self {
            MxClassID::Bool => 1,
            MxClassID::Char => 1,
            MxClassID::F64 => 8,
            MxClassID::F32 => 4,
            MxClassID::I8 => 1,
            MxClassID::U8 => 1,
            MxClassID::I16 => 2,
            MxClassID::U16 => 2,
            MxClassID::I32 => 4,
            MxClassID::U32 => 4,
            MxClassID::I64 => 8,
            MxClassID::U64 => 8,
            _ => 0,
        }
    }

    /// Executable form of `spec_element_size`.
    pub fn element_size(self) -> (n: usize)
        ensures
            n as nat == self.spec_element_size(),
    {
        match self {
            MxClassID::Bool => 1,
            MxClassID::Char => 1,
            MxClassID::F64 => 8,
            MxClassID::F32 => 4,
            MxClassID::I8 => 1,
            MxClassID::U8 => 1,
            MxClassID::I16 => 2,
            MxClassID::U16 => 2,
            MxClassID::I32 => 4,
            MxClassID::U32 => 4,
            MxClassID::I64 => 8,
            MxClassID::U64 => 8,
            _ => 0,
        }
    }
}

/// Law: decoding the code of a class gives the class back, for every class.
pub proof fn lemma_class_round_trip(c: MxClassID)
    ensures
        class_of(code_of(c)) == c,
{
}

/// Law: encoding the class a recognized code decodes to gives the code back,
/// for every code 0 through 16.
pub proof fn lemma_code_round_trip(code: int)
    requires
        0 <= code <= 16,
    ensures
        code_of(class_of(code)) == code,
{
}

/// Law: every code outside 0 through 16 decodes to `Unknown`; decoding is
/// total and never fails.
pub proof fn lemma_decode_total(code: int)
    ensures
        code < 0 || code > 16 ==> class_of(code) == MxClassID::Unknown,
{
}

} // verus!
