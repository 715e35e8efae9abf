//! Enumerated protocol values of the foreign calling convention: type tags,
//! thread statuses, operator selectors, garbage-collector options, reference
//! sentinels and hook masks, together with their integer encodings.
//!
//! Every decoding function is total and fails closed: an integer outside the
//! documented range decodes to nothing rather than silently aliasing an
//! existing variant.

use vstd::prelude::*;

verus! {

/// Type used to index the operand stack: positive from the frame base,
/// negative from the top, with reserved pseudo-index values below
/// [`REGISTRYINDEX`].
pub type Index = i32;

/// Represents an integer of the foreign numeric type.
pub type Integer = i64;

/// Requests that all results of a call be kept on the stack.
pub const MULTRET: i32 = -1;

/// Upper bound on the operand stack of one interpreter instance.
pub const MAXSTACK: usize = 1000000;

/// Pseudo-index resolving to the persistent registry.
pub const REGISTRYINDEX: Index = -1001000;

/// Registry slot of the main thread.
pub const RIDX_MAINTHREAD: Integer = 1;

/// Registry slot of the globals table.
pub const RIDX_GLOBALS: Integer = 2;

/// Tag describing the dynamic type occupying a stack slot.
///
/// `Absent` is the tag reported for a stack position that holds no value at
/// all (an index beyond the current top), as distinct from a slot holding
/// the nil value.
#[derive(Clone, Copy, Debug, PartialEq, Eq, Structural)]
pub enum Type {
    Absent,
    Nil,
    Boolean,
    LightUserdata,
    Number,
    String,
    Table,
    Function,
    Userdata,
    Thread,
}

/// The integer encoding of a type tag in the foreign protocol.
pub open spec fn spec_type_code(t: Type) -> int {
    match t {
        Type::Absent => -1,
        Type::Nil => 0,
        Type::Boolean => 1,
        Type::LightUserdata => 2,
        Type::Number => 3,
        Type::String => 4,
        Type::Table => 5,
        Type::Function => 6,
        Type::Userdata => 7,
        Type::Thread => 8,
    }
}

/// The total decoding of a foreign type-tag integer: distinct variants for
/// the ten documented codes, nothing for every other integer.
pub open spec fn spec_type_of_code(i: int) -> Option<Type> {
    if i == -1 {
        Some(Type::Absent)
    } else if i == 0 {
        Some(Type::Nil)
    } else if i == 1 {
        Some(Type::Boolean)
    } else if i == 2 {
        Some(Type::LightUserdata)
    } else if i == 3 {
        Some(Type::Number)
    } else if i == 4 {
        Some(Type::String)
    } else if i == 5 {
        Some(Type::Table)
    } else if i == 6 {
        Some(Type::Function)
    } else if i == 7 {
        Some(Type::Userdata)
    } else if i == 8 {
        Some(Type::Thread)
    } else {
        None
    }
}

/// The canonical script-visible name of a type tag.
pub open spec fn spec_type_name(t: Type) -> Seq<char> {
    match t {
        Type::Absent => "no value"@,
        Type::Nil => "nil"@,
        Type::Boolean => "boolean"@,
        Type::LightUserdata => "userdata"@,
        Type::Number => "number"@,
        Type::String => "string"@,
        Type::Table => "table"@,
        Type::Function => "function"@,
        Type::Userdata => "userdata"@,
        Type::Thread => "thread"@,
    }
}

impl Type {
    /// The integer code under which the foreign protocol reports this tag.
    pub fn to_code(self) -> (r: i32)
        ensures
            r as int == spec_type_code(self),
    {
        match self {
            Type::Absent => -1,
            Type::Nil => 0,
            Type::Boolean => 1,
            Type::LightUserdata => 2,
            Type::Number => 3,
            Type::String => 4,
            Type::Table => 5,
            Type::Function => 6,
            Type::Userdata => 7,
            Type::Thread => 8,
        }
    }

    /// Decodes a foreign type-tag integer, failing closed on unknown codes.
    pub fn from_code(i: i32) -> (r: Option<Type>)
        ensures
            r == spec_type_of_code(i as int),
    {
        match i {
            -1 => Some(Type::Absent),
            0 => Some(Type::Nil),
            1 => Some(Type::Boolean),
            2 => Some(Type::LightUserdata),
            3 => Some(Type::Number),
            4 => Some(Type::String),
            5 => Some(Type::Table),
            6 => Some(Type::Function),
            7 => Some(Type::Userdata),
            8 => Some(Type::Thread),
            _ => None,
        }
    }

    /// The canonical name of this tag, as scripts see it.
    pub fn name(self) -> (r: &'static str)
        ensures
            r@ == spec_type_name(self),
    {
        match self {
            Type::Absent => "no value",
            Type::Nil => "nil",
            Type::Boolean => "boolean",
            Type::LightUserdata => "userdata",
            Type::Number => "number",
            Type::String => "string",
            Type::Table => "table",
            Type::Function => "function",
            Type::Userdata => "userdata",
            Type::Thread => "thread",
        }
    }
}

/// Decoding a tag's own code always gives back that tag, and decoding any
/// integer outside the documented range gives nothing: the decoder is a
/// total, fail-closed inverse of the encoding.
pub proof fn lemma_type_code_roundtrip(t: Type, i: int)
    ensures
        spec_type_of_code(spec_type_code(t)) == Some(t),
        !(-1 <= i <= 8) ==> spec_type_of_code(i) is None,
{
}

/// Status of an interpreter thread, as reported by every load, call or
/// resume operation.
#[derive(Clone, Copy, Debug, PartialEq, Eq, Structural)]
pub enum ThreadStatus {
    Normal,
    Yield,
    RuntimeError,
    SyntaxError,
    MemoryError,
    GcError,
    MessageHandlerError,
    FileError,
}

/// The integer encoding of a thread status in the foreign protocol.
pub open spec fn spec_status_code(s: ThreadStatus) -> int {
    match s {
        ThreadStatus::Normal => 0,
        ThreadStatus::Yield => 1,
        ThreadStatus::RuntimeError => 2,
        ThreadStatus::SyntaxError => 3,
        ThreadStatus::MemoryError => 4,
        ThreadStatus::GcError => 5,
        ThreadStatus::MessageHandlerError => 6,
        ThreadStatus::FileError => 7,
    }
}

/// The total decoding of a foreign status integer, failing closed.
pub open spec fn spec_status_of_code(i: int) -> Option<ThreadStatus> {
    if i == 0 {
        Some(ThreadStatus::Normal)
    } else if i == 1 {
        Some(ThreadStatus::Yield)
    } else if i == 2 {
        Some(ThreadStatus::RuntimeError)
    } else if i == 3 {
        Some(ThreadStatus::SyntaxError)
    } else if i == 4 {
        Some(ThreadStatus::MemoryError)
    } else if i == 5 {
        Some(ThreadStatus::GcError)
    } else if i == 6 {
        Some(ThreadStatus::MessageHandlerError)
    } else if i == 7 {
        Some(ThreadStatus::FileError)
    } else {
        None
    }
}

impl ThreadStatus {
    /// The integer code under which the foreign protocol reports this status.
    pub fn to_code(self) -> (r: i32)
        ensures
            r as int == spec_status_code(self),
    {
        match self {
            ThreadStatus::Normal => 0,
            ThreadStatus::Yield => 1,
            ThreadStatus::RuntimeError => 2,
            ThreadStatus::SyntaxError => 3,
            ThreadStatus::MemoryError => 4,
            ThreadStatus::GcError => 5,
            ThreadStatus::MessageHandlerError => 6,
            ThreadStatus::FileError => 7,
        }
    }

    /// Decodes a foreign status integer, failing closed on unknown codes.
    pub fn from_code(i: i32) -> (r: Option<ThreadStatus>)
        ensures
            r == spec_status_of_code(i as int),
    {
        match i {
            0 => Some(ThreadStatus::Normal),
            1 => Some(ThreadStatus::Yield),
            2 => Some(ThreadStatus::RuntimeError),
            3 => Some(ThreadStatus::SyntaxError),
            4 => Some(ThreadStatus::MemoryError),
            5 => Some(ThreadStatus::GcError),
            6 => Some(ThreadStatus::MessageHandlerError),
            7 => Some(ThreadStatus::FileError),
            _ => None,
        }
    }

    /// Returns `true` exactly for the error statuses: every status but
    /// `Normal` and `Yield` carries an error object on the stack.
    pub fn is_err(self) -> (r: bool)
        ensures
            r == !(self is Normal || self is Yield),
    {
        match self {
            ThreadStatus::RuntimeError
            | ThreadStatus::SyntaxError
            | ThreadStatus::MemoryError
            | ThreadStatus::GcError
            | ThreadStatus::MessageHandlerError
            | ThreadStatus::FileError => true,
            ThreadStatus::Normal | ThreadStatus::Yield => false,
        }
    }
}

/// Decoding a status's own code always gives back that status, and every
/// integer outside the documented range decodes to nothing.
pub proof fn lemma_status_code_roundtrip(s: ThreadStatus, i: int)
    ensures
        spec_status_of_code(spec_status_code(s)) == Some(s),
        !(0 <= i <= 7) ==> spec_status_of_code(i) is None,
{
}

/// Arithmetic operation selectors for the foreign arithmetic primitive.
#[derive(Clone, Copy, Debug, PartialEq, Eq, Structural)]
pub enum Arithmetic {
    Add,
    Sub,
    Mul,
    Mod,
    Pow,
    Div,
    IDiv,
    BAnd,
    BOr,
    BXor,
    Shl,
    Shr,
    Unm,
    BNot,
}

impl Arithmetic {
    /// The integer code of this operation in the foreign protocol.
    pub fn to_code(self) -> (r: i32)
        ensures
            r == match self {
                Arithmetic::Add => 0i32,
                Arithmetic::Sub => 1i32,
                Arithmetic::Mul => 2i32,
                Arithmetic::Mod => 3i32,
                Arithmetic::Pow => 4i32,
                Arithmetic::Div => 5i32,
                Arithmetic::IDiv => 6i32,
                Arithmetic::BAnd => 7i32,
                Arithmetic::BOr => 8i32,
                Arithmetic::BXor => 9i32,
                Arithmetic::Shl => 10i32,
                Arithmetic::Shr => 11i32,
                Arithmetic::Unm => 12i32,
                Arithmetic::BNot => 13i32,
            },
    {
        match self {
            Arithmetic::Add => 0,
            Arithmetic::Sub => 1,
            Arithmetic::Mul => 2,
            Arithmetic::Mod => 3,
            Arithmetic::Pow => 4,
            Arithmetic::Div => 5,
            Arithmetic::IDiv => 6,
            Arithmetic::BAnd => 7,
            Arithmetic::BOr => 8,
            Arithmetic::BXor => 9,
            Arithmetic::Shl => 10,
            Arithmetic::Shr => 11,
            Arithmetic::Unm => 12,
            Arithmetic::BNot => 13,
        }
    }
}

/// Comparison operation selectors for the foreign comparison primitive.
#[derive(Clone, Copy, Debug, PartialEq, Eq, Structural)]
pub enum Comparison {
    Eq,
    Lt,
    Le,
}

impl Comparison {
    /// The integer code of this operation in the foreign protocol.
    pub fn to_code(self) -> (r: i32)
        ensures
            r == match self {
                Comparison::Eq => 0i32,
                Comparison::Lt => 1i32,
                Comparison::Le => 2i32,
            },
    {
        match self {
            Comparison::Eq => 0,
            Comparison::Lt => 1,
            Comparison::Le => 2,
        }
    }
}

/// Options for the foreign garbage collector.
#[derive(Clone, Copy, Debug, PartialEq, Eq, Structural)]
pub enum GcOption {
    Stop,
    Restart,
    Collect,
    Count,
    CountBytes,
    Step,
    SetPause,
    SetStepMul,
    IsRunning,
}

impl GcOption {
    /// The integer code of this option in the foreign protocol.
    pub fn to_code(self) -> (r: i32)
        ensures
            r == match self {
                GcOption::Stop => 0i32,
                GcOption::Restart => 1i32,
                GcOption::Collect => 2i32,
                GcOption::Count => 3i32,
                GcOption::CountBytes => 4i32,
                GcOption::Step => 5i32,
                GcOption::SetPause => 6i32,
                GcOption::SetStepMul => 7i32,
                GcOption::IsRunning => 9i32,
            },
    {
        match self {
            GcOption::Stop => 0,
            GcOption::Restart => 1,
            GcOption::Collect => 2,
            GcOption::Count => 3,
            GcOption::CountBytes => 4,
            GcOption::Step => 5,
            GcOption::SetPause => 6,
            GcOption::SetStepMul => 7,
            GcOption::IsRunning => 9,
        }
    }
}

/// The sentinel reference standing for a registered nil value.
pub const REFNIL: i32 = -1;

/// The sentinel reference that no registration ever returns.
pub const NOREF: i32 = -2;

/// An opaque integer handle into the interpreter's persistent reference
/// table, used to keep a value alive beyond the current call.
#[derive(Clone, Copy, Debug, PartialEq, Eq, Structural)]
pub struct Reference(pub i32);

impl Reference {
    /// Returns `true` if this reference is the nil-value sentinel.
    pub fn is_nil_ref(self) -> (r: bool)
        ensures
            r == (self.0 == REFNIL),
    {
        self.0 == REFNIL
    }

    /// Returns `true` if this reference is the never-registered sentinel.
    pub fn is_no_ref(self) -> (r: bool)
        ensures
            r == (self.0 == NOREF),
    {
        self.0 == NOREF
    }

    /// The raw integer value of this reference.
    pub fn value(self) -> (r: i32)
        ensures
            r == self.0,
    {
        self.0
    }
}

/// Hook-event mask bit: function call events.
pub const MASKCALL: u32 = 1;

/// Hook-event mask bit: function return events.
pub const MASKRET: u32 = 2;

/// Hook-event mask bit: new-line events.
pub const MASKLINE: u32 = 4;

/// Hook-event mask bit: instruction-count events.
pub const MASKCOUNT: u32 = 8;

/// A set of hook-event mask bits.
#[derive(Clone, Copy, Debug, PartialEq, Eq, Structural)]
pub struct HookMask {
    pub bits: u32,
}

impl HookMask {
    /// The empty mask.
    pub fn empty() -> (r: HookMask)
        ensures
            r.bits == 0,
    {
        HookMask { bits: 0 }
    }

    /// Keeps only the documented mask bits of a foreign mask integer.
    pub fn from_bits_truncate(bits: u32) -> (r: HookMask)
        ensures
            r.bits == bits & 15,
            r.bits & 15 == r.bits,
    {
        proof {
            assert(forall|b: u32| #[trigger] (b & 15) & 15 == b & 15) by (bit_vector);
        }
        HookMask { bits: bits & 15 }
    }

    /// The raw bits of this mask.
    pub fn bits(self) -> (r: u32)
        ensures
            r == self.bits,
    {
        self.bits
    }

    /// Whether every bit of `other` is set in this mask.
    pub fn contains(self, other: HookMask) -> (r: bool)
        ensures
            r == (self.bits & other.bits == other.bits),
    {
        self.bits & other.bits == other.bits
    }

    /// The union of the two masks.
    pub fn union(self, other: HookMask) -> (r: HookMask)
        ensures
            r.bits == self.bits | other.bits,
    {
        HookMask { bits: self.bits | other.bits }
    }
}

} // verus!
