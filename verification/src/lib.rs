//! A safe, verified model of a binding layer over a stack-based scripting
//! virtual machine.
//!
//! The foreign runtime communicates with host code through an explicit
//! operand stack; this crate captures the binding discipline around that
//! stack — signed index resolution, type tagging, bounds checking, typed
//! conversion, argument unpacking, the native-call result protocol,
//! reference pinning and attached extra data — as verified operations over
//! an explicit model of the interpreter state.
//!
//! The foreign runtime itself (bytecode interpreter, garbage collector,
//! parser) stays outside: where an operation's outcome is computed by the
//! runtime, the verified layer takes that outcome as an argument and states
//! exactly what it does with every possible value of it.

pub mod args;
pub mod arith;
pub mod convert;
pub mod exec;
pub mod ser;
pub mod state;
pub mod table;
pub mod trampoline;
pub mod text;
pub mod textops;
pub mod types;
pub mod value;

pub use args::ArgError;
pub use args::ArgKind;
pub use args::ArgValue;
pub use convert::FromLua;
pub use exec::CallFailure;
pub use exec::LoadOutcome;
pub use convert::ToLua;
pub use state::Extra;
pub use state::Function;
pub use state::Number;
pub use state::State;
pub use types::Arithmetic;
pub use types::Comparison;
pub use types::GcOption;
pub use types::HookMask;
pub use types::Index;
pub use types::Integer;
pub use types::MASKCALL;
pub use types::MASKCOUNT;
pub use types::MASKLINE;
pub use types::MASKRET;
pub use types::MAXSTACK;
pub use types::MULTRET;
pub use types::NOREF;
pub use types::REFNIL;
pub use types::REGISTRYINDEX;
pub use types::RIDX_GLOBALS;
pub use types::RIDX_MAINTHREAD;
pub use types::Reference;
pub use types::ThreadStatus;
pub use types::Type;
pub use value::Value;
