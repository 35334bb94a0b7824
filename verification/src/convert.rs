//! Conversion layer between native types and the boundary [`Value`] type.
//!
//! Each native type states which values it accepts ([`FromValue`]) and how it
//! is encoded back into a value ([`IntoValue`]). Extraction fails with
//! [`PluginError::InvalidArgumentType`] on a shape mismatch; encoding is
//! total and never fails.

use vstd::prelude::*;

use crate::error::PluginError;
use crate::value::{lemma_array_model, lemma_object_model, Value, ValueModel};

verus! {

broadcast use vstd::std_specs::vec::group_vec_axioms, vstd::seq::group_seq_axioms;

/// Native types that can be extracted from a boundary [`Value`].
pub trait FromValue: Sized + DeepView {
    /// Which value shapes this type accepts.
    spec fn accepts(m: ValueModel) -> bool;

    /// The native model extracted from an accepted value.
    spec fn extracted(m: ValueModel) -> Self::V;

    /// Extracts this type from a value, or fails with
    /// [`PluginError::InvalidArgumentType`] when the value has the wrong shape.
    fn from_value(value: &Value) -> (r: Result<Self, PluginError>)
        ensures
            Self::accepts(value.deep_view()) ==> (r matches Ok(t) && t.deep_view()
                == Self::extracted(value.deep_view())),
            !Self::accepts(value.deep_view()) ==> (r matches Err(e) && e
                == PluginError::InvalidArgumentType),
    ;
}

/// Native types that can be encoded as a boundary [`Value`]. Total: every
/// native value has an encoding.
pub trait IntoValue: DeepView {
    /// The value produced from a native model.
    spec fn encoded(m: Self::V) -> ValueModel;

    /// Encodes this native value as a boundary value.
    fn into_value(self) -> (r: Value)
        ensures
            r.deep_view() == Self::encoded(self.deep_view()),
    ;
}

impl FromValue for bool {
    open spec fn accepts(m: ValueModel) -> bool {
        m is Bool
    }

    open spec fn extracted(m: ValueModel) -> bool {
        m->Bool_0
    }

    fn from_value(value: &Value) -> (r: Result<Self, PluginError>) {
        match value {
            Value::Bool(b) => Ok(*b),
            _ => Err(PluginError::InvalidArgumentType),
        }
    }
}

impl IntoValue for bool {
    open spec fn encoded(m: bool) -> ValueModel {
        ValueModel::Bool(m)
    }

    fn into_value(self) -> (r: Value) {
        Value::Bool(self)
    }
}

impl FromValue for i64 {
    open spec fn accepts(m: ValueModel) -> bool {
        m is Int
    }

    open spec fn extracted(m: ValueModel) -> i64 {
        m->Int_0
    }

    fn from_value(value: &Value) -> (r: Result<Self, PluginError>) {
        match value {
            Value::Int(i) => Ok(*i),
            _ => Err(PluginError::InvalidArgumentType),
        }
    }
}

impl IntoValue for i64 {
    open spec fn encoded(m: i64) -> ValueModel {
        ValueModel::Int(m)
    }

    fn into_value(self) -> (r: Value) {
        Value::Int(self)
    }
}

impl FromValue for String {
    open spec fn accepts(m: ValueModel) -> bool {
        m is String
    }

    open spec fn extracted(m: ValueModel) -> Seq<char> {
        m->String_0
    }

    fn from_value(value: &Value) -> (r: Result<Self, PluginError>) {
        match value {
            Value::String(s) => Ok(s.clone()),
            _ => Err(PluginError::InvalidArgumentType),
        }
    }
}

impl IntoValue for String {
    open spec fn encoded(m: Seq<char>) -> ValueModel {
        ValueModel::String(m)
    }

    fn into_value(self) -> (r: Value) {
        Value::String(self)
    }
}

impl FromValue for () {
    open spec fn accepts(m: ValueModel) -> bool {
        m is Null
    }

    open spec fn extracted(m: ValueModel) -> () {
        ()
    }

    fn from_value(value: &Value) -> (r: Result<Self, PluginError>) {
        match value {
            Value::Null => Ok(()),
            _ => Err(PluginError::InvalidArgumentType),
        }
    }
}

impl IntoValue for () {
    open spec fn encoded(m: ()) -> ValueModel {
        ValueModel::Null
    }

    fn into_value(self) -> (r: Value) {
        Value::Null
    }
}

/// A 64-bit floating-point number carried by its IEEE 754 bit pattern, the
/// form in which [`Value::Float`] stores it.
#[derive(Clone, Copy, PartialEq, Eq, Structural, Debug)]
pub struct FloatBits(pub u64);

impl DeepView for FloatBits {
    type V = u64;

    open spec fn deep_view(&self) -> u64 {
        self.0
    }
}

impl FromValue for FloatBits {
    open spec fn accepts(m: ValueModel) -> bool {
        m is Float
    }

    open spec fn extracted(m: ValueModel) -> u64 {
        m->Float_0
    }

    fn from_value(value: &Value) -> (r: Result<Self, PluginError>) {
        match value {
            Value::Float(bits) => Ok(FloatBits(*bits)),
            _ => Err(PluginError::InvalidArgumentType),
        }
    }
}

impl IntoValue for FloatBits {
    open spec fn encoded(m: u64) -> ValueModel {
        ValueModel::Float(m)
    }

    fn into_value(self) -> (r: Value) {
        Value::Float(self.0)
    }
}

impl FromValue for Vec<u8> {
    open spec fn accepts(m: ValueModel) -> bool {
        m is Bytes
    }

    open spec fn extracted(m: ValueModel) -> Seq<u8> {
        m->Bytes_0
    }

    fn from_value(value: &Value) -> (r: Result<Self, PluginError>) {
        match value {
            Value::Bytes(b) => {
                let out = b.clone();
                proof {
                    assert(out@ =~= b@);
                    assert(out.deep_view() =~= b@);
                }
                Ok(out)
            },
            _ => Err(PluginError::InvalidArgumentType),
        }
    }
}

impl IntoValue for Vec<u8> {
    open spec fn encoded(m: Seq<u8>) -> ValueModel {
        ValueModel::Bytes(m)
    }

    fn into_value(self) -> (r: Value) {
        let r = Value::Bytes(self);
        proof {
            assert(r.deep_view() =~= Self::encoded(self.deep_view()));
        }
        r
    }
}

impl FromValue for Vec<Value> {
    open spec fn accepts(m: ValueModel) -> bool {
        m is Array
    }

    open spec fn extracted(m: ValueModel) -> Seq<ValueModel> {
        m->Array_0
    }

    fn from_value(value: &Value) -> (r: Result<Self, PluginError>) {
        match value {
            Value::Array(items) => {
                let out = items.clone();
                proof {
                    assert(out.deep_view() =~= items.deep_view());
                    lemma_array_model(*items);
                }
                Ok(out)
            },
            _ => Err(PluginError::InvalidArgumentType),
        }
    }
}

impl IntoValue for Vec<Value> {
    open spec fn encoded(m: Seq<ValueModel>) -> ValueModel {
        ValueModel::Array(m)
    }

    fn into_value(self) -> (r: Value) {
        proof {
            lemma_array_model(self);
        }
        Value::Array(self)
    }
}

impl FromValue for Vec<(String, Value)> {
    open spec fn accepts(m: ValueModel) -> bool {
        m is Object
    }

    open spec fn extracted(m: ValueModel) -> Seq<(Seq<char>, ValueModel)> {
        m->Object_0
    }

    #[verifier::loop_isolation(false)]
    fn from_value(value: &Value) -> (r: Result<Self, PluginError>) {
        match value {
            Value::Object(entries) => {
                let mut out: Vec<(String, Value)> = Vec::new();
                let mut idx: usize = 0;
                while idx < entries.len()
                    invariant
                        idx <= entries.len(),
                        out.len() == idx,
                        forall|i: int|
                            0 <= i < idx ==> out@[i].0@ == entries@[i].0@ && out@[i].1.deep_view()
                                == entries@[i].1.deep_view(),
                    decreases entries.len() - idx,
                {
                    let entry = &entries[idx];
                    out.push((entry.0.clone(), entry.1.clone()));
                    idx += 1;
                }
                proof {
                    assert(out.deep_view() =~= entries.deep_view());
                    lemma_object_model(*entries);
                }
                Ok(out)
            },
            _ => Err(PluginError::InvalidArgumentType),
        }
    }
}

impl IntoValue for Vec<(String, Value)> {
    open spec fn encoded(m: Seq<(Seq<char>, ValueModel)>) -> ValueModel {
        ValueModel::Object(m)
    }

    fn into_value(self) -> (r: Value) {
        proof {
            lemma_object_model(self);
        }
        Value::Object(self)
    }
}

impl FromValue for Value {
    open spec fn accepts(m: ValueModel) -> bool {
        true
    }

    open spec fn extracted(m: ValueModel) -> ValueModel {
        m
    }

    fn from_value(value: &Value) -> (r: Result<Self, PluginError>) {
        Ok(value.clone())
    }
}

impl IntoValue for Value {
    open spec fn encoded(m: ValueModel) -> ValueModel {
        m
    }

    fn into_value(self) -> (r: Value) {
        self
    }
}

/// Round trip for null values: re-encoding the unit extracted from a null
/// value reproduces that value.
pub proof fn lemma_null_round_trip(m: ValueModel)
    requires
        <() as FromValue>::accepts(m),
    ensures
        <() as IntoValue>::encoded(<() as FromValue>::extracted(m)) == m,
{
}

/// Round trip for booleans: re-encoding the boolean extracted from a value
/// reproduces that value.
pub proof fn lemma_bool_round_trip(m: ValueModel)
    requires
        <bool as FromValue>::accepts(m),
    ensures
        <bool as IntoValue>::encoded(<bool as FromValue>::extracted(m)) == m,
{
}

/// Round trip for integers: re-encoding the integer extracted from a value
/// reproduces that value.
pub proof fn lemma_int_round_trip(m: ValueModel)
    requires
        <i64 as FromValue>::accepts(m),
    ensures
        <i64 as IntoValue>::encoded(<i64 as FromValue>::extracted(m)) == m,
{
}

/// Round trip for floating-point bit patterns: re-encoding the bits extracted
/// from a value reproduces that value.
pub proof fn lemma_float_round_trip(m: ValueModel)
    requires
        <FloatBits as FromValue>::accepts(m),
    ensures
        <FloatBits as IntoValue>::encoded(<FloatBits as FromValue>::extracted(m)) == m,
{
}

/// Round trip for strings: re-encoding the string extracted from a value
/// reproduces that value.
pub proof fn lemma_string_round_trip(m: ValueModel)
    requires
        <String as FromValue>::accepts(m),
    ensures
        <String as IntoValue>::encoded(<String as FromValue>::extracted(m)) == m,
{
}

/// Round trip for byte buffers: re-encoding the bytes extracted from a value
/// reproduces that value.
pub proof fn lemma_bytes_round_trip(m: ValueModel)
    requires
        <Vec<u8> as FromValue>::accepts(m),
    ensures
        <Vec<u8> as IntoValue>::encoded(<Vec<u8> as FromValue>::extracted(m)) == m,
{
}

/// Round trip for arrays: re-encoding the item sequence extracted from a
/// value reproduces that value.
pub proof fn lemma_array_round_trip(m: ValueModel)
    requires
        <Vec<Value> as FromValue>::accepts(m),
    ensures
        <Vec<Value> as IntoValue>::encoded(<Vec<Value> as FromValue>::extracted(m)) == m,
{
}

/// Round trip for objects: re-encoding the entry sequence extracted from a
/// value reproduces that value.
pub proof fn lemma_object_round_trip(m: ValueModel)
    requires
        <Vec<(String, Value)> as FromValue>::accepts(m),
    ensures
        <Vec<(String, Value)> as IntoValue>::encoded(
            <Vec<(String, Value)> as FromValue>::extracted(m),
        ) == m,
{
}

/// Round trip for values themselves: extraction and re-encoding are both the
/// identity, for every variant.
pub proof fn lemma_value_round_trip(m: ValueModel)
    ensures
        <Value as IntoValue>::encoded(<Value as FromValue>::extracted(m)) == m,
{
}

/// Extracts a zero-argument parameter list: succeeds exactly on an empty
/// argument sequence, else fails with [`PluginError::InvalidArgumentType`].
pub fn extract_args0(args: &Vec<Value>) -> (r: Result<(), PluginError>)
    ensures
        args.deep_view().len() == 0 ==> r is Ok,
        args.deep_view().len() != 0 ==> (r matches Err(e) && e
            == PluginError::InvalidArgumentType),
{
    if args.len() != 0 {
        return Err(PluginError::InvalidArgumentType);
    }
    Ok(())
}

/// Extracts one typed argument: exact arity, then the type's own
/// extraction; any mismatch fails with
/// [`PluginError::InvalidArgumentType`].
pub fn extract_args1<A: FromValue>(args: &Vec<Value>) -> (r: Result<A, PluginError>)
    ensures
        args.deep_view().len() == 1 && A::accepts(args.deep_view()[0]) ==> (r matches Ok(a)
            && a.deep_view() == A::extracted(args.deep_view()[0])),
        !(args.deep_view().len() == 1 && A::accepts(args.deep_view()[0])) ==> (r matches Err(e)
            && e == PluginError::InvalidArgumentType),
{
    if args.len() != 1 {
        return Err(PluginError::InvalidArgumentType);
    }
    A::from_value(&args[0])
}

/// Extracts two typed arguments in declared positional order, exact arity,
/// short-circuiting on the first position that fails; any mismatch fails
/// with [`PluginError::InvalidArgumentType`].
pub fn extract_args2<A: FromValue, B: FromValue>(args: &Vec<Value>) -> (r: Result<
    (A, B),
    PluginError,
>)
    ensures
        args.deep_view().len() == 2 && A::accepts(args.deep_view()[0]) && B::accepts(
            args.deep_view()[1],
        ) ==> (r matches Ok(t) && t.0.deep_view() == A::extracted(args.deep_view()[0])
            && t.1.deep_view() == B::extracted(args.deep_view()[1])),
        !(args.deep_view().len() == 2 && A::accepts(args.deep_view()[0]) && B::accepts(
            args.deep_view()[1],
        )) ==> (r matches Err(e) && e == PluginError::InvalidArgumentType),
{
    if args.len() != 2 {
        return Err(PluginError::InvalidArgumentType);
    }
    let a = match A::from_value(&args[0]) {
        Ok(a) => a,
        Err(e) => {
            return Err(e);
        },
    };
    let b = match B::from_value(&args[1]) {
        Ok(b) => b,
        Err(e) => {
            return Err(e);
        },
    };
    Ok((a, b))
}

/// Extracts three typed arguments in declared positional order, exact
/// arity, short-circuiting on the first position that fails; any mismatch
/// fails with [`PluginError::InvalidArgumentType`].
pub fn extract_args3<A: FromValue, B: FromValue, C: FromValue>(args: &Vec<Value>) -> (r: Result<
    (A, B, C),
    PluginError,
>)
    ensures
        args.deep_view().len() == 3 && A::accepts(args.deep_view()[0]) && B::accepts(
            args.deep_view()[1],
        ) && C::accepts(args.deep_view()[2]) ==> (r matches Ok(t) && t.0.deep_view()
            == A::extracted(args.deep_view()[0]) && t.1.deep_view() == B::extracted(
            args.deep_view()[1],
        ) && t.2.deep_view() == C::extracted(args.deep_view()[2])),
        !(args.deep_view().len() == 3 && A::accepts(args.deep_view()[0]) && B::accepts(
            args.deep_view()[1],
        ) && C::accepts(args.deep_view()[2])) ==> (r matches Err(e) && e
            == PluginError::InvalidArgumentType),
{
    if args.len() != 3 {
        return Err(PluginError::InvalidArgumentType);
    }
    let a = match A::from_value(&args[0]) {
        Ok(a) => a,
        Err(e) => {
            return Err(e);
        },
    };
    let b = match B::from_value(&args[1]) {
        Ok(b) => b,
        Err(e) => {
            return Err(e);
        },
    };
    let c = match C::from_value(&args[2]) {
        Ok(c) => c,
        Err(e) => {
            return Err(e);
        },
    };
    Ok((a, b, c))
}

/// Encodes a callable's native output as its successful boundary result —
/// the result-encoder half of the registration path, total like
/// [`IntoValue::into_value`].
pub fn encode_output<T: IntoValue>(out: T) -> (r: Result<Value, PluginError>)
    ensures
        r matches Ok(v) && v.deep_view() == T::encoded(out.deep_view()),
{
    Ok(out.into_value())
}

} // verus!
