//! The argument-unpacking protocol: binding a declared, ordered list of
//! expected host types from the trailing values of the operand stack, with
//! one coherent error path.
//!
//! An unpack is a single linear pass.  Too few trailing values report the
//! declared count; the first conversion mismatch reports its one-based
//! position and the expected type, and no later conversion is attempted.
//! Unpacking only reads the stack, so its net effect on the stack depth is
//! zero by construction, which keeps nested unpacks from corrupting each
//! other's bookkeeping.

use vstd::prelude::*;

use crate::state::spec_to_integer;
use crate::state::spec_to_str_view;
use crate::state::Function;
use crate::state::Number;
use crate::state::State;
use crate::text::spec_dec_nat;
use crate::text::u64_to_string;
use crate::types::Index;
use crate::value::Value;

verus! {

/// A declared expected argument type.
#[derive(Clone, Copy, Debug, PartialEq, Eq, Structural)]
pub enum ArgKind {
    Str,
    Int,
    Num,
    Bool,
    Fn,
}

/// One argument bound by a successful unpack.
#[derive(Clone, Debug)]
pub enum ArgValue {
    Str(String),
    Int(i64),
    Num(Number),
    Bool(bool),
    Fn(Function),
}

/// A failed unpack: either the stack held fewer trailing values than the
/// declared count, or the value at a one-based position did not convert
/// to its declared type.
#[derive(Clone, Debug, PartialEq, Eq)]
pub enum ArgError {
    TooFew { expected: usize },
    Mismatch { position: usize, expected: ArgKind },
    WithMessage { position: usize, message: String },
}

/// Whether a stack value converts to the declared kind.
pub open spec fn spec_arg_readable(k: ArgKind, v: Value) -> bool {
    match k {
        ArgKind::Str => spec_to_str_view(v) is Some,
        ArgKind::Int => v is Integer,
        ArgKind::Num => v is Number,
        ArgKind::Bool => v is Boolean,
        ArgKind::Fn => v is Function,
    }
}

/// Whether `r` is the conversion of stack value `v` under kind `k`.
pub open spec fn spec_arg_reads(k: ArgKind, v: Value, r: ArgValue) -> bool {
    match k {
        ArgKind::Str => r matches ArgValue::Str(s) && spec_to_str_view(v) == Some(s@),
        ArgKind::Int => r matches ArgValue::Int(i) && v == Value::Integer(i),
        ArgKind::Num => r matches ArgValue::Num(n) && v == Value::Number(n.bits),
        ArgKind::Bool => r matches ArgValue::Bool(b) && v == Value::Boolean(b),
        ArgKind::Fn => r matches ArgValue::Fn(f) && v == Value::Function(f.0),
    }
}

impl ArgKind {
    /// The script-visible name of the expected type.
    pub fn name(self) -> (r: &'static str)
        ensures
            self is Str ==> r@ == "string"@,
            self is Int ==> r@ == "integer"@,
            self is Num ==> r@ == "number"@,
            self is Bool ==> r@ == "boolean"@,
            self is Fn ==> r@ == "function"@,
    {
        match self {
            ArgKind::Str => "string",
            ArgKind::Int => "integer",
            ArgKind::Num => "number",
            ArgKind::Bool => "boolean",
            ArgKind::Fn => "function",
        }
    }
}

impl ArgError {
    /// Renders the error as the message shown to the script: a count
    /// mismatch names the number of arguments expected, a conversion
    /// mismatch names the one-based position and the expected type.
    pub fn message(&self) -> (r: String)
        ensures
            self matches ArgError::TooFew { expected } ==> r@ == spec_dec_nat(expected as nat)
                + " argument(s) expected"@,
            self matches ArgError::Mismatch { position, expected } ==> r@ == "bad argument #"@
                + spec_dec_nat(position as nat) + " ("@ + expected.name_view() + " expected)"@,
            self matches ArgError::WithMessage { position, message } ==> r@ == "bad argument #"@
                + spec_dec_nat(position as nat) + " ("@ + message@ + ")"@,
    {
        match self {
            ArgError::TooFew { expected } => {
                let mut s = u64_to_string(*expected as u64);
                s.append(" argument(s) expected");
                s
            },
            ArgError::Mismatch { position, expected } => {
                let mut s = String::from_str("bad argument #");
                let digits = u64_to_string(*position as u64);
                s.append(digits.as_str());
                s.append(" (");
                s.append(expected.name());
                s.append(" expected)");
                s
            },
            ArgError::WithMessage { position, message } => {
                let mut s = String::from_str("bad argument #");
                let digits = u64_to_string(*position as u64);
                s.append(digits.as_str());
                s.append(" (");
                s.append(message.as_str());
                s.append(")");
                s
            },
        }
    }
}

impl ArgKind {
    /// The name of the expected type as a character sequence.
    pub open spec fn name_view(self) -> Seq<char> {
        match self {
            ArgKind::Str => "string"@,
            ArgKind::Int => "integer"@,
            ArgKind::Num => "number"@,
            ArgKind::Bool => "boolean"@,
            ArgKind::Fn => "function"@,
        }
    }
}

/// The value in the `i`-th unpacked position (zero-based), counting the
/// declared number of trailing stack values.
pub open spec fn spec_trailing(s: State, count: int, i: int) -> Value {
    s.stack@[s.top() - count + i]
}

impl State {
    /// Reads the slot at `idx` under a declared kind, without mutating
    /// anything.
    fn read_arg(&self, kind: ArgKind, idx: Index) -> (r: Option<ArgValue>)
        requires
            self.wf(),
        ensures
            match r {
                Some(v) => self.spec_resolves(idx as int) && spec_arg_readable(
                    kind,
                    self.spec_slot(idx as int),
                ) && spec_arg_reads(kind, self.spec_slot(idx as int), v),
                None => !self.spec_resolves(idx as int) || !spec_arg_readable(
                    kind,
                    self.spec_slot(idx as int),
                ),
            },
    {
        match kind {
            ArgKind::Str => match self.to_str(idx) {
                Some(s) => Some(ArgValue::Str(s)),
                None => None,
            },
            ArgKind::Int => {
                if self.is_integer(idx) {
                    match self.to_integerx(idx) {
                        Some(i) => Some(ArgValue::Int(i)),
                        None => None,
                    }
                } else {
                    None
                }
            },
            ArgKind::Num => match self.to_numberx(idx) {
                Some(n) => Some(ArgValue::Num(n)),
                None => None,
            },
            ArgKind::Bool => {
                if self.is_bool(idx) {
                    Some(ArgValue::Bool(self.to_bool(idx)))
                } else {
                    None
                }
            },
            ArgKind::Fn => match self.to_native_fn(idx) {
                Some(f) => Some(ArgValue::Fn(f)),
                None => None,
            },
        }
    }

    /// Unpacks the declared list of expected types from the trailing
    /// values of the stack.
    ///
    /// With fewer trailing values than declared, the error names the
    /// declared count.  Otherwise each position converts in order; the
    /// first mismatch names its one-based position and expected type, and
    /// no later position is examined.  On success every declared position
    /// is bound.  The stack is only read, so the net stack effect of any
    /// outcome is zero.
    pub fn convert_arguments(&self, types: &Vec<ArgKind>) -> (r: Result<
        Vec<ArgValue>,
        ArgError,
    >)
        requires
            self.wf(),
        ensures
            match r {
                Ok(vals) => {
                    &&& self.top() >= types@.len()
                    &&& vals@.len() == types@.len()
                    &&& forall|i: int|
                        0 <= i < types@.len() ==> spec_arg_readable(
                            #[trigger] types@[i],
                            spec_trailing(*self, types@.len() as int, i),
                        ) && spec_arg_reads(
                            types@[i],
                            spec_trailing(*self, types@.len() as int, i),
                            vals@[i],
                        )
                },
                Err(e) => match e {
                    ArgError::TooFew { expected } => expected == types@.len() && self.top()
                        < types@.len(),
                    ArgError::Mismatch { position, expected } => {
                        &&& self.top() >= types@.len()
                        &&& 1 <= position <= types@.len()
                        &&& expected == types@[position - 1]
                        &&& !spec_arg_readable(
                            expected,
                            spec_trailing(*self, types@.len() as int, position - 1),
                        )
                        &&& forall|j: int|
                            0 <= j < position - 1 ==> spec_arg_readable(
                                #[trigger] types@[j],
                                spec_trailing(*self, types@.len() as int, j),
                            )
                    },
                    ArgError::WithMessage { .. } => false,
                },
            },
    {
        let quantity = types.len();
        let top = self.stack.len();
        if top < quantity {
            return Err(ArgError::TooFew { expected: quantity });
        }
        let base = top - quantity;
        let mut vals: Vec<ArgValue> = Vec::new();
        let mut i: usize = 0;
        while i < quantity
            invariant
                self.wf(),
                quantity == types@.len(),
                top == self.top(),
                base == top - quantity,
                i <= quantity,
                vals@.len() == i,
                forall|j: int|
                    0 <= j < i ==> spec_arg_readable(
                        #[trigger] types@[j],
                        spec_trailing(*self, quantity as int, j),
                    ) && spec_arg_reads(
                        types@[j],
                        spec_trailing(*self, quantity as int, j),
                        vals@[j],
                    ),
            decreases quantity - i,
        {
            let idx: Index = ((base + i + 1) as u64) as i32;
            proof {
                assert(base + i + 1 <= self.top());
                assert(self.top() <= 0x7fffffff);
                assert(idx as int == base + i + 1);
                assert(self.spec_resolves(idx as int));
                assert(self.spec_slot(idx as int) == spec_trailing(
                    *self,
                    quantity as int,
                    i as int,
                ));
            }
            match self.read_arg(types[i], idx) {
                Some(v) => {
                    vals.push(v);
                },
                None => {
                    return Err(
                        ArgError::Mismatch { position: i + 1, expected: types[i] },
                    );
                },
            }
            i = i + 1;
        }
        Ok(vals)
    }

    /// Requires the argument at the one-based position `arg` to read as
    /// an integer, with the runtime's lenient string coercion, reporting a
    /// positional error otherwise.
    pub fn check_integer(&self, arg: Index) -> (r: Result<i64, ArgError>)
        requires
            self.wf(),
            arg >= 1,
        ensures
            match r {
                Ok(i) => self.spec_resolves(arg as int) && spec_to_integer(
                    self.spec_slot(arg as int),
                ) == Some(i),
                Err(e) => (!self.spec_resolves(arg as int) || spec_to_integer(
                    self.spec_slot(arg as int),
                ) is None) && e == (ArgError::Mismatch {
                    position: arg as usize,
                    expected: ArgKind::Int,
                }),
            },
    {
        match self.to_integerx(arg) {
            Some(i) => Ok(i),
            None => Err(ArgError::Mismatch { position: arg as usize, expected: ArgKind::Int }),
        }
    }

    /// Requires the argument at `arg` to read as a string, reporting a
    /// positional error otherwise.
    pub fn check_string(&self, arg: Index) -> (r: Result<String, ArgError>)
        requires
            self.wf(),
            arg >= 1,
        ensures
            match r {
                Ok(s) => self.spec_resolves(arg as int) && spec_to_str_view(
                    self.spec_slot(arg as int),
                ) == Some(s@),
                Err(e) => (!self.spec_resolves(arg as int) || spec_to_str_view(
                    self.spec_slot(arg as int),
                ) is None) && e == (ArgError::Mismatch {
                    position: arg as usize,
                    expected: ArgKind::Str,
                }),
            },
    {
        match self.to_str(arg) {
            Some(s) => Ok(s),
            None => Err(ArgError::Mismatch { position: arg as usize, expected: ArgKind::Str }),
        }
    }

    /// Requires the argument at `arg` to be a float, reporting a
    /// positional error otherwise.  Only the strict float subtype
    /// converts; lenient numeric coercion is the runtime's, not the
    /// model's.
    pub fn check_number(&self, arg: Index) -> (r: Result<Number, ArgError>)
        requires
            self.wf(),
            arg >= 1,
        ensures
            match r {
                Ok(n) => self.spec_resolves(arg as int) && self.spec_slot(arg as int)
                    == Value::Number(n.bits),
                Err(e) => (!self.spec_resolves(arg as int) || !(self.spec_slot(
                    arg as int,
                ) is Number)) && e == (ArgError::Mismatch {
                    position: arg as usize,
                    expected: ArgKind::Num,
                }),
            },
    {
        match self.to_numberx(arg) {
            Some(n) => Ok(n),
            None => Err(ArgError::Mismatch { position: arg as usize, expected: ArgKind::Num }),
        }
    }

    /// Reads the integer argument at `arg` under the same lenient
    /// coercion, or the default when the position holds nothing or nil.
    pub fn opt_integer(&self, arg: Index, def: i64) -> (r: Result<i64, ArgError>)
        requires
            self.wf(),
            arg >= 1,
        ensures
            (!self.spec_resolves(arg as int) || self.spec_slot(arg as int) is Nil) ==> r == Ok::<
                i64,
                ArgError,
            >(def),
            self.spec_resolves(arg as int) && !(self.spec_slot(arg as int) is Nil) ==> match r {
                Ok(i) => spec_to_integer(self.spec_slot(arg as int)) == Some(i),
                Err(e) => spec_to_integer(self.spec_slot(arg as int)) is None && e == (
                ArgError::Mismatch { position: arg as usize, expected: ArgKind::Int }),
            },
    {
        if self.is_none_or_nil(arg) {
            Ok(def)
        } else {
            self.check_integer(arg)
        }
    }

    /// Reads the string argument at `arg`, or a copy of the default when
    /// the position holds nothing or nil.
    pub fn opt_string(&self, arg: Index, def: &str) -> (r: Result<String, ArgError>)
        requires
            self.wf(),
            arg >= 1,
        ensures
            (!self.spec_resolves(arg as int) || self.spec_slot(arg as int) is Nil) ==> (
            r matches Ok(s) && s@ == def@),
            self.spec_resolves(arg as int) && !(self.spec_slot(arg as int) is Nil) ==> match r {
                Ok(s) => spec_to_str_view(self.spec_slot(arg as int)) == Some(s@),
                Err(e) => spec_to_str_view(self.spec_slot(arg as int)) is None && e == (
                ArgError::Mismatch { position: arg as usize, expected: ArgKind::Str }),
            },
    {
        if self.is_none_or_nil(arg) {
            Ok(def.to_owned())
        } else {
            self.check_string(arg)
        }
    }

    /// Builds the positional error for the one-based argument `arg` with
    /// an explanatory message, as a value for the caller to report.
    pub fn arg_error(&self, arg: Index, extramsg: &str) -> (r: ArgError)
        requires
            arg >= 1,
        ensures
            r matches ArgError::WithMessage { position, message } && position == arg as usize
                && message@ == extramsg@,
    {
        ArgError::WithMessage { position: arg as usize, message: extramsg.to_owned() }
    }

    /// Checks a condition about the argument at `arg`, reporting the given
    /// positional error when it fails.
    pub fn arg_check(&self, cond: bool, arg: Index, extramsg: &str) -> (r: Result<(), ArgError>)
        requires
            arg >= 1,
        ensures
            cond ==> r is Ok,
            !cond ==> (r matches Err(e) && e matches ArgError::WithMessage {
                position,
                message,
            } && position == arg as usize && message@ == extramsg@),
    {
        if cond {
            Ok(())
        } else {
            Err(self.arg_error(arg, extramsg))
        }
    }

    /// Matches the string argument at `arg` (or the default, when the
    /// position holds nothing or nil) against a list of options and
    /// reports the position of the first match, or a positional error when
    /// the argument is not a string or matches no option.
    pub fn check_option(&self, arg: Index, def: Option<&str>, lst: &Vec<String>) -> (r: Result<
        usize,
        ArgError,
    >)
        requires
            self.wf(),
            arg >= 1,
        ensures
            r matches Ok(i) ==> i < lst@.len(),
            ({
                let absent = !self.spec_resolves(arg as int) || self.spec_slot(arg as int) is Nil;
                &&& (absent && def is None ==> r == Err::<usize, ArgError>(
                    ArgError::Mismatch { position: arg as usize, expected: ArgKind::Str },
                ))
                &&& (absent ==> (def matches Some(d) ==> spec_option_outcome(
                    r,
                    lst@,
                    d@,
                    arg as int,
                )))
                &&& (!absent ==> (spec_to_str_view(self.spec_slot(arg as int)) matches Some(name)
                    ==> spec_option_outcome(r, lst@, name, arg as int)))
                &&& (!absent && spec_to_str_view(self.spec_slot(arg as int)) is None ==> r == Err::<
                    usize,
                    ArgError,
                >(ArgError::Mismatch { position: arg as usize, expected: ArgKind::Str }))
            }),
    {
        let name: String = if self.is_none_or_nil(arg) {
            match def {
                Some(d) => d.to_owned(),
                None => {
                    return Err(
                        ArgError::Mismatch { position: arg as usize, expected: ArgKind::Str },
                    );
                },
            }
        } else {
            match self.to_str(arg) {
                Some(s) => s,
                None => {
                    return Err(
                        ArgError::Mismatch { position: arg as usize, expected: ArgKind::Str },
                    );
                },
            }
        };
        match find_string(lst, &name) {
            Some(i) => Ok(i),
            None => Err(
                ArgError::WithMessage {
                    position: arg as usize,
                    message: invalid_option_message(&name),
                },
            ),
        }
    }
}

/// The position of the first string in the list with the given text.
fn find_string(lst: &Vec<String>, name: &String) -> (r: Option<usize>)
    ensures
        match r {
            Some(i) => i < lst@.len() && lst@[i as int]@ == name@ && forall|j: int|
                0 <= j < i ==> #[trigger] lst@[j]@ != name@,
            None => forall|j: int| 0 <= j < lst@.len() ==> #[trigger] lst@[j]@ != name@,
        },
{
    let mut i: usize = 0;
    while i < lst.len()
        invariant
            i <= lst@.len(),
            forall|j: int| 0 <= j < i ==> #[trigger] lst@[j]@ != name@,
        decreases lst@.len() - i,
    {
        let cand: &String = &lst[i];
        if *cand == *name {
            return Some(i);
        }
        i = i + 1;
    }
    None
}

/// The outcome `check_option` owes for a resolved option name: the first
/// matching position, else the invalid-option error.
pub open spec fn spec_option_outcome(
    r: Result<usize, ArgError>,
    lst: Seq<String>,
    name: Seq<char>,
    arg: int,
) -> bool {
    if exists|i: int| 0 <= i < lst.len() && #[trigger] lst[i]@ == name {
        r matches Ok(i) && i < lst.len() && lst[i as int]@ == name && (forall|j: int|
            0 <= j < i ==> #[trigger] lst[j]@ != name)
    } else {
        r matches Err(e) && e matches ArgError::WithMessage { position, message } && position == arg
            && message@ == "invalid option '"@ + name + "'"@
    }
}

/// Renders the invalid-option message for a name.
fn invalid_option_message(name: &String) -> (r: String)
    ensures
        r@ == "invalid option '"@ + name@ + "'"@,
{
    let mut s = String::from_str("invalid option '");
    s.append(name.as_str());
    s.append("'");
    s
}

} // verus!
