//! Boundary value model: the only data type that crosses the host/plugin
//! boundary.

use vstd::prelude::*;

verus! {

broadcast use vstd::std_specs::vec::group_vec_axioms, vstd::seq::group_seq_axioms;

/// Mathematical model of a [`Value`]: the same tree with every executable
/// collection replaced by its abstract counterpart.
#[verifier::ext_equal]
pub enum ValueModel {
    Null,
    Bool(bool),
    Int(i64),
    Float(u64),
    String(Seq<char>),
    Bytes(Seq<u8>),
    Array(Seq<ValueModel>),
    Object(Seq<(Seq<char>, ValueModel)>),
}

/// Boundary data model: a closed tagged union of every kind of datum that may
/// cross between the host and a plugin.
///
/// Floating-point numbers are carried by their IEEE 754 bit pattern, so that
/// the tree itself stays free of float arithmetic; converting to and from
/// `f64` is the caller's concern at the boundary.
#[derive(Debug)]
pub enum Value {
    Null,
    Bool(bool),
    Int(i64),
    Float(u64),
    String(String),
    Bytes(Vec<u8>),
    Array(Vec<Value>),
    Object(Vec<(String, Value)>),
}

/// The model of a value: every executable collection replaced by its
/// abstract counterpart.
pub open spec fn value_model(v: Value) -> ValueModel
    decreases v,
{
    match v {
        Value::Null => ValueModel::Null,
        Value::Bool(b) => ValueModel::Bool(b),
        Value::Int(i) => ValueModel::Int(i),
        Value::Float(bits) => ValueModel::Float(bits),
        Value::String(s) => ValueModel::String(s@),
        Value::Bytes(b) => ValueModel::Bytes(b@),
        Value::Array(items) => ValueModel::Array(
            Seq::new(
                items@.len(),
                |i: int|
                    if 0 <= i < items@.len() {
                        value_model(items@[i])
                    } else {
                        ValueModel::Null
                    },
            ),
        ),
        Value::Object(entries) => ValueModel::Object(
            Seq::new(
                entries@.len(),
                |i: int|
                    if 0 <= i < entries@.len() {
                        (entries@[i].0@, value_model(entries@[i].1))
                    } else {
                        (Seq::empty(), ValueModel::Null)
                    },
            ),
        ),
    }
}

impl DeepView for Value {
    type V = ValueModel;

    #[verifier::inline]
    open spec fn deep_view(&self) -> ValueModel {
        value_model(*self)
    }
}

/// The eight kinds of [`Value`], used as type tags when a capability declares
/// the shape of its parameters.
#[derive(Clone, Copy, PartialEq, Eq, Structural, Debug)]
pub enum ValueKind {
    Null,
    Bool,
    Int,
    Float,
    String,
    Bytes,
    Array,
    Object,
}

/// The kind tag of a value model.
pub open spec fn kind_of(m: ValueModel) -> ValueKind {
    match m {
        ValueModel::Null => ValueKind::Null,
        ValueModel::Bool(_) => ValueKind::Bool,
        ValueModel::Int(_) => ValueKind::Int,
        ValueModel::Float(_) => ValueKind::Float,
        ValueModel::String(_) => ValueKind::String,
        ValueModel::Bytes(_) => ValueKind::Bytes,
        ValueModel::Array(_) => ValueKind::Array,
        ValueModel::Object(_) => ValueKind::Object,
    }
}

/// No two entries of an object share a key.
pub open spec fn keys_unique(entries: Seq<(Seq<char>, ValueModel)>) -> bool {
    forall|i: int, j: int|
        0 <= i < j < entries.len() ==> entries[i].0 != entries[j].0
}

/// Every object anywhere in the tree has pairwise-distinct keys.
pub open spec fn wf_model(m: ValueModel) -> bool
    decreases m,
{
    match m {
        ValueModel::Array(items) => forall|i: int|
            0 <= i < items.len() ==> wf_model(#[trigger] items[i]),
        ValueModel::Object(entries) => keys_unique(entries) && forall|i: int|
            0 <= i < entries.len() ==> wf_model(#[trigger] entries[i].1),
        _ => true,
    }
}

/// An array value's model is its items' model sequence.
pub proof fn lemma_array_model(items: Vec<Value>)
    ensures
        (Value::Array(items)).deep_view() == ValueModel::Array(items.deep_view()),
{
    let v = Value::Array(items);
    assert(v.deep_view()->Array_0 =~= items.deep_view());
    assert(v.deep_view() =~= ValueModel::Array(items.deep_view()));
}

/// An object value's model pairs each entry's key characters with the
/// entry value's model, in entry order.
pub proof fn lemma_object_model(entries: Vec<(String, Value)>)
    ensures
        (Value::Object(entries)).deep_view() == ValueModel::Object(entries.deep_view()),
{
    let v = Value::Object(entries);
    assert(v.deep_view()->Object_0 =~= entries.deep_view());
    assert(v.deep_view() =~= ValueModel::Object(entries.deep_view()));
}

impl Value {
    /// The kind tag of this value.
    pub fn kind(&self) -> (k: ValueKind)
        ensures
            k == kind_of(self.deep_view()),
    {
        match self {
            Value::Null => ValueKind::Null,
            Value::Bool(_) => ValueKind::Bool,
            Value::Int(_) => ValueKind::Int,
            Value::Float(_) => ValueKind::Float,
            Value::String(_) => ValueKind::String,
            Value::Bytes(_) => ValueKind::Bytes,
            Value::Array(_) => ValueKind::Array,
            Value::Object(_) => ValueKind::Object,
        }
    }

    /// The integer payload, when this value is an integer.
    pub fn as_int(&self) -> (r: Option<i64>)
        ensures
            match self.deep_view() {
                ValueModel::Int(i) => r == Some(i),
                _ => r is None,
            },
    {
        match self {
            Value::Int(i) => Some(*i),
            _ => None,
        }
    }

    /// The boolean payload, when this value is a boolean.
    pub fn as_bool(&self) -> (r: Option<bool>)
        ensures
            match self.deep_view() {
                ValueModel::Bool(b) => r == Some(b),
                _ => r is None,
            },
    {
        match self {
            Value::Bool(b) => Some(*b),
            _ => None,
        }
    }

    /// The string payload, when this value is a string.
    pub fn as_str(&self) -> (r: Option<&String>)
        ensures
            match self.deep_view() {
                ValueModel::String(s) => r matches Some(out) && out@ == s,
                _ => r is None,
            },
    {
        match self {
            Value::String(s) => Some(s),
            _ => None,
        }
    }
}

impl Value {
    /// Checks the object-key invariant over the whole tree: every object
    /// anywhere in this value has pairwise-distinct keys.
    #[verifier::loop_isolation(false)]
    pub fn is_well_formed(&self) -> (b: bool)
        ensures
            b == wf_model(self.deep_view()),
        decreases self,
    {
        match self {
            Value::Array(items) => {
                let mut idx: usize = 0;
                while idx < items.len()
                    invariant
                        idx <= items.len(),
                        forall|i: int|
                            0 <= i < idx ==> wf_model(#[trigger] self.deep_view()->Array_0[i]),
                    decreases items.len() - idx,
                {
                    if !items[idx].is_well_formed() {
                        proof {
                            assert(self.deep_view()->Array_0[idx as int] == items@[idx
                                as int].deep_view());
                            assert(!wf_model(self.deep_view()));
                        }
                        return false;
                    }
                    proof {
                        assert(self.deep_view()->Array_0[idx as int] == items@[idx
                            as int].deep_view());
                    }
                    idx += 1;
                }
                true
            },
            Value::Object(entries) => {
                let mut idx: usize = 0;
                let ghost m = self.deep_view()->Object_0;
                while idx < entries.len()
                    invariant
                        idx <= entries.len(),
                        forall|i: int| 0 <= i < idx ==> wf_model((#[trigger] m[i]).1),
                        forall|i: int, j: int|
                            0 <= i < j < idx ==> (#[trigger] m[i]).0 != (#[trigger] m[j]).0,
                    decreases entries.len() - idx,
                {
                    let mut k: usize = 0;
                    while k < idx
                        invariant
                            k <= idx < entries.len(),
                            forall|i: int| 0 <= i < k ==> (#[trigger] m[i]).0 != m[idx as int].0,
                        decreases idx - k,
                    {
                        if entries[k].0 == entries[idx].0 {
                            proof {
                                assert(m[k as int].0 == entries@[k as int].0@);
                                assert(m[idx as int].0 == entries@[idx as int].0@);
                                assert(!keys_unique(m));
                                assert(!wf_model(self.deep_view()));
                            }
                            return false;
                        }
                        proof {
                            assert(m[k as int].0 == entries@[k as int].0@);
                            assert(m[idx as int].0 == entries@[idx as int].0@);
                        }
                        k += 1;
                    }
                    if !entries[idx].1.is_well_formed() {
                        proof {
                            assert(m[idx as int].1 == entries@[idx as int].1.deep_view());
                            assert(!wf_model(self.deep_view()));
                        }
                        return false;
                    }
                    proof {
                        assert(m[idx as int].1 == entries@[idx as int].1.deep_view());
                    }
                    idx += 1;
                }
                true
            },
            _ => true,
        }
    }
}

impl PartialEq for Value {
    /// Structural equality: two values are equal exactly when their models
    /// are. A float payload compares by its bit pattern — the structural
    /// comparison of the carrier, not IEEE 754 semantics.
    #[verifier::loop_isolation(false)]
    fn eq(&self, other: &Value) -> (r: bool)
        ensures
            r == (self.deep_view() == other.deep_view()),
        decreases self,
    {
        match (self, other) {
            (Value::Null, Value::Null) => true,
            (Value::Bool(a), Value::Bool(b)) => *a == *b,
            (Value::Int(a), Value::Int(b)) => *a == *b,
            (Value::Float(a), Value::Float(b)) => *a == *b,
            (Value::String(a), Value::String(b)) => *a == *b,
            (Value::Bytes(a), Value::Bytes(b)) => {
                let r = eq_bytes(a, b);
                proof {
                    if a@ =~= b@ {
                        assert(self.deep_view() =~= other.deep_view());
                    }
                }
                r
            },
            (Value::Array(xs), Value::Array(ys)) => {
                let ghost ms = self.deep_view()->Array_0;
                let ghost mo = other.deep_view()->Array_0;
                if xs.len() != ys.len() {
                    proof {
                        assert(ms.len() != mo.len());
                    }
                    return false;
                }
                let mut idx: usize = 0;
                while idx < xs.len()
                    invariant
                        idx <= xs.len(),
                        xs.len() == ys.len(),
                        forall|i: int| 0 <= i < idx ==> (#[trigger] ms[i]) == mo[i],
                    decreases xs.len() - idx,
                {
                    if !(xs[idx] == ys[idx]) {
                        proof {
                            assert(ms[idx as int] != mo[idx as int]);
                        }
                        return false;
                    }
                    proof {
                        assert(ms[idx as int] == mo[idx as int]);
                    }
                    idx += 1;
                }
                proof {
                    assert(ms =~= mo);
                    assert(self.deep_view() =~= other.deep_view());
                }
                true
            },
            (Value::Object(xs), Value::Object(ys)) => {
                let ghost ms = self.deep_view()->Object_0;
                let ghost mo = other.deep_view()->Object_0;
                if xs.len() != ys.len() {
                    proof {
                        assert(ms.len() != mo.len());
                    }
                    return false;
                }
                let mut idx: usize = 0;
                while idx < xs.len()
                    invariant
                        idx <= xs.len(),
                        xs.len() == ys.len(),
                        forall|i: int| 0 <= i < idx ==> (#[trigger] ms[i]) == mo[i],
                    decreases xs.len() - idx,
                {
                    let xe = &xs[idx];
                    let ye = &ys[idx];
                    if !(xe.0 == ye.0) {
                        proof {
                            assert(ms[idx as int].0 != mo[idx as int].0);
                        }
                        return false;
                    }
                    if !(xe.1 == ye.1) {
                        proof {
                            assert(ms[idx as int].1 != mo[idx as int].1);
                        }
                        return false;
                    }
                    proof {
                        assert(ms[idx as int] == mo[idx as int]);
                    }
                    idx += 1;
                }
                proof {
                    assert(ms =~= mo);
                    assert(self.deep_view() =~= other.deep_view());
                }
                true
            },
            _ => {
                proof {
                    assert(kind_of(self.deep_view()) != kind_of(other.deep_view()));
                }
                false
            },
        }
    }
}

impl vstd::std_specs::cmp::PartialEqSpecImpl for Value {
    open spec fn obeys_eq_spec() -> bool {
        true
    }

    open spec fn eq_spec(&self, other: &Value) -> bool {
        self.deep_view() == other.deep_view()
    }
}

/// Byte-sequence equality, element by element.
fn eq_bytes(a: &Vec<u8>, b: &Vec<u8>) -> (r: bool)
    ensures
        r == (a@ =~= b@),
{
    if a.len() != b.len() {
        return false;
    }
    let mut idx: usize = 0;
    while idx < a.len()
        invariant
            idx <= a@.len(),
            a@.len() == b@.len(),
            forall|i: int| 0 <= i < idx ==> a@[i] == b@[i],
        decreases a@.len() - idx,
    {
        if a[idx] != b[idx] {
            return false;
        }
        idx += 1;
    }
    true
}

impl Clone for Value {
    /// Structural copy: the clone has the same model as the original.
    #[verifier::loop_isolation(false)]
    fn clone(&self) -> (r: Value)
        ensures
            r.deep_view() == self.deep_view(),
        decreases self,
    {
        match self {
            Value::Null => Value::Null,
            Value::Bool(b) => Value::Bool(*b),
            Value::Int(i) => Value::Int(*i),
            Value::Float(bits) => Value::Float(*bits),
            Value::String(s) => Value::String(s.clone()),
            Value::Bytes(b) => Value::Bytes(b.clone()),
            Value::Array(items) => {
                let mut out: Vec<Value> = Vec::new();
                let mut idx: usize = 0;
                while idx < items.len()
                    invariant
                        idx <= items.len(),
                        out.len() == idx,
                        forall|i: int|
                            0 <= i < idx ==> out@[i].deep_view() == items@[i].deep_view(),
                    decreases items.len() - idx,
                {
                    out.push(items[idx].clone());
                    idx += 1;
                }
                let result = Value::Array(out);
                proof {
                    assert(result.deep_view()->Array_0 =~= self.deep_view()->Array_0);
                    assert(result.deep_view() =~= self.deep_view());
                }
                result
            },
            Value::Object(entries) => {
                let mut out: Vec<(String, Value)> = Vec::new();
                let mut idx: usize = 0;
                while idx < entries.len()
                    invariant
                        idx <= entries.len(),
                        out.len() == idx,
                        forall|i: int|
                            0 <= i < idx ==> out@[i].0@ == entries@[i].0@ && out@[i].1.deep_view()
                                == entries@[i].1.deep_view(),
                    decreases entries.len() - idx,
                {
                    let entry = &entries[idx];
                    out.push((entry.0.clone(), entry.1.clone()));
                    idx += 1;
                }
                let result = Value::Object(out);
                proof {
                    assert(result.deep_view()->Object_0 =~= self.deep_view()->Object_0);
                    assert(result.deep_view() =~= self.deep_view());
                }
                result
            },
        }
    }
}

} // verus!
