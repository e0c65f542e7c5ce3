//! Column values and tuples: the unit of data flow through the pipeline.

use vstd::prelude::*;
use vstd::utf8::encode_utf8;

verus! {

/// The scalar types a column can hold.
#[derive(Clone, Copy, PartialEq, Eq, Structural, Debug)]
pub enum DataType {
    Int,
    Text,
}

/// Mathematical model of a [`Value`]: a tagged scalar.
pub ghost enum ValueV {
    Int(int),
    Text(Seq<char>),
}

/// The dtype of a modelled value.
pub open spec fn dtype_of(v: ValueV) -> DataType {
    match v {
        ValueV::Int(_) => DataType::Int,
        ValueV::Text(_) => DataType::Text,
    }
}

/// Byte-wise lexicographic order.
pub open spec fn bytes_lt(a: Seq<u8>, b: Seq<u8>) -> bool
    decreases a.len(),
{
    if a.len() == 0 {
        b.len() > 0
    } else if b.len() == 0 {
        false
    } else if a[0] != b[0] {
        a[0] < b[0]
    } else {
        bytes_lt(a.drop_first(), b.drop_first())
    }
}

/// Order on text values: byte-wise lexicographic order of the UTF-8 encoding.
pub open spec fn text_lt(a: Seq<char>, b: Seq<char>) -> bool {
    bytes_lt(encode_utf8(a), encode_utf8(b))
}

/// Strict order on values.  Values of different dtypes are unordered: the
/// comparison yields false, so a selector over them rejects the row.
pub open spec fn value_lt(a: ValueV, b: ValueV) -> bool {
    match (a, b) {
        (ValueV::Int(x), ValueV::Int(y)) => x < y,
        (ValueV::Text(s), ValueV::Text(t)) => text_lt(s, t),
        _ => false,
    }
}

/// Non-strict order on values; false across dtypes.
pub open spec fn value_le(a: ValueV, b: ValueV) -> bool {
    match (a, b) {
        (ValueV::Int(x), ValueV::Int(y)) => x <= y,
        (ValueV::Text(s), ValueV::Text(t)) => text_lt(s, t) || s == t,
        _ => false,
    }
}

/// Disequality within one dtype; false across dtypes, so that a `NotEqual`
/// selector also rejects a row whose operands have different dtypes.
pub open spec fn value_neq(a: ValueV, b: ValueV) -> bool {
    match (a, b) {
        (ValueV::Int(x), ValueV::Int(y)) => x != y,
        (ValueV::Text(s), ValueV::Text(t)) => s != t,
        _ => false,
    }
}

/// An immutable column value.
#[derive(Debug)]
pub enum Value {
    Int(i64),
    Text(String),
}

impl View for Value {
    type V = ValueV;

    open spec fn view(&self) -> ValueV {
        match self {
            Value::Int(i) => ValueV::Int(*i as int),
            Value::Text(s) => ValueV::Text(s@),
        }
    }
}

impl DeepView for Value {
    type V = ValueV;

    open spec fn deep_view(&self) -> ValueV {
        self@
    }
}

impl Value {
    /// A structural copy of the value.
    pub fn duplicate(&self) -> (r: Value)
        ensures
            r@ == self@,
    {
        match self {
            Value::Int(i) => Value::Int(*i),
            Value::Text(s) => Value::Text(s.clone()),
        }
    }

    /// Structural equality; values of different dtypes are unequal.
    pub fn eq_value(&self, other: &Value) -> (r: bool)
        ensures
            r == (self@ == other@),
    {
        match (self, other) {
            (Value::Int(x), Value::Int(y)) => *x == *y,
            (Value::Text(s), Value::Text(t)) => s.eq(t),
            _ => false,
        }
    }

    /// Disequality within one dtype per [`value_neq`]; false across dtypes.
    pub fn neq_value(&self, other: &Value) -> (r: bool)
        ensures
            r == value_neq(self@, other@),
    {
        match (self, other) {
            (Value::Int(x), Value::Int(y)) => *x != *y,
            (Value::Text(s), Value::Text(t)) => !s.eq(t),
            _ => false,
        }
    }

    /// Strict order per [`value_lt`].
    pub fn lt_value(&self, other: &Value) -> (r: bool)
        ensures
            r == value_lt(self@, other@),
    {
        match (self, other) {
            (Value::Int(x), Value::Int(y)) => *x < *y,
            (Value::Text(s), Value::Text(t)) => bytes_lt_exec(s.as_str().as_bytes(), t.as_str().as_bytes()),
            _ => false,
        }
    }

    /// Non-strict order per [`value_le`].
    pub fn le_value(&self, other: &Value) -> (r: bool)
        ensures
            r == value_le(self@, other@),
    {
        match (self, other) {
            (Value::Int(x), Value::Int(y)) => *x <= *y,
            (Value::Text(s), Value::Text(t)) => {
                bytes_lt_exec(s.as_str().as_bytes(), t.as_str().as_bytes()) || s.eq(t)
            },
            _ => false,
        }
    }
}

/// One step of [`bytes_lt`]: dropping an equal head byte keeps the order.
proof fn lemma_bytes_lt_step(a: Seq<u8>, b: Seq<u8>, i: int)
    requires
        0 <= i < a.len(),
        i < b.len(),
        a[i] == b[i],
    ensures
        bytes_lt(a.skip(i), b.skip(i)) == bytes_lt(a.skip(i + 1), b.skip(i + 1)),
{
    assert(a.skip(i).drop_first() =~= a.skip(i + 1));
    assert(b.skip(i).drop_first() =~= b.skip(i + 1));
}

/// Byte-wise lexicographic comparison of two byte slices.
fn bytes_lt_exec(a: &[u8], b: &[u8]) -> (r: bool)
    ensures
        r == bytes_lt(a@, b@),
{
    let mut i: usize = 0;
    assert(a@.skip(0) =~= a@);
    assert(b@.skip(0) =~= b@);
    loop
        invariant
            i <= a@.len(),
            i <= b@.len(),
            bytes_lt(a@, b@) == bytes_lt(a@.skip(i as int), b@.skip(i as int)),
        decreases a@.len() - i,
    {
        if i == a.len() {
            assert(a@.skip(i as int).len() == 0);
            return (b.len() - i) > 0;
        }
        if i == b.len() {
            assert(b@.skip(i as int).len() == 0);
            assert(a@.skip(i as int).len() > 0);
            return false;
        }
        let x = a[i];
        let y = b[i];
        assert(a@.skip(i as int)[0] == a@[i as int]);
        assert(b@.skip(i as int)[0] == b@[i as int]);
        if x != y {
            return x < y;
        }
        proof {
            lemma_bytes_lt_step(a@, b@, i as int);
        }
        i = i + 1;
    }
}

/// An ordered sequence of values.
#[derive(Debug)]
pub struct Tuple {
    pub values: Vec<Value>,
}

impl View for Tuple {
    type V = Seq<ValueV>;

    open spec fn view(&self) -> Seq<ValueV> {
        self.values.deep_view()
    }
}

impl DeepView for Tuple {
    type V = Seq<ValueV>;

    open spec fn deep_view(&self) -> Seq<ValueV> {
        self@
    }
}

/// The narrowing of a tuple to the given offsets, in their order.
pub open spec fn project_seq(t: Seq<ValueV>, offsets: Seq<usize>) -> Seq<ValueV> {
    Seq::new(offsets.len(), |j: int| t[offsets[j] as int])
}

impl Tuple {
    /// An empty tuple.
    pub fn empty() -> (r: Tuple)
        ensures
            r@ =~= Seq::<ValueV>::empty(),
    {
        Tuple { values: Vec::new() }
    }

    /// Wraps a vector of values.
    pub fn new(values: Vec<Value>) -> (r: Tuple)
        ensures
            r@ == values.deep_view(),
    {
        Tuple { values }
    }

    /// The number of values.
    pub fn len(&self) -> (n: usize)
        ensures
            n == self@.len(),
    {
        self.values.len()
    }

    /// The value at an offset.
    pub fn get(&self, i: usize) -> (v: &Value)
        requires
            i < self@.len(),
        ensures
            v@ == self@[i as int],
    {
        &self.values[i]
    }

    /// A structural copy of the tuple.
    pub fn duplicate(&self) -> (r: Tuple)
        ensures
            r@ == self@,
    {
        let mut values: Vec<Value> = Vec::new();
        let mut i: usize = 0;
        while i < self.values.len()
            invariant
                i <= self.values.len(),
                values@.len() == i,
                forall|k: int| 0 <= k < i ==> values@[k]@ == self@[k],
            decreases self.values.len() - i,
        {
            values.push(self.values[i].duplicate());
            i = i + 1;
        }
        assert(values.deep_view() =~= self@);
        Tuple { values }
    }

    /// The concatenation of this tuple with another.
    pub fn append(&self, other: &Tuple) -> (r: Tuple)
        ensures
            r@ == self@ + other@,
    {
        let mut values: Vec<Value> = Vec::new();
        let mut i: usize = 0;
        while i < self.values.len()
            invariant
                i <= self.values.len(),
                values@.len() == i,
                forall|k: int| 0 <= k < i ==> values@[k]@ == self@[k],
            decreases self.values.len() - i,
        {
            values.push(self.values[i].duplicate());
            i = i + 1;
        }
        let mut j: usize = 0;
        while j < other.values.len()
            invariant
                j <= other.values.len(),
                values@.len() == self@.len() + j,
                forall|k: int| 0 <= k < self@.len() ==> values@[k]@ == self@[k],
                forall|k: int| 0 <= k < j ==> values@[self@.len() + k]@ == other@[k],
            decreases other.values.len() - j,
        {
            values.push(other.values[j].duplicate());
            j = j + 1;
        }
        assert(values.deep_view() =~= self@ + other@);
        Tuple { values }
    }

    /// The projection of this tuple to the given offsets, in their order.
    pub fn project(&self, offsets: &Vec<usize>) -> (r: Tuple)
        requires
            forall|j: int| 0 <= j < offsets@.len() ==> offsets@[j] < self@.len(),
        ensures
            r@ == project_seq(self@, offsets@),
    {
        let mut values: Vec<Value> = Vec::new();
        let mut j: usize = 0;
        while j < offsets.len()
            invariant
                j <= offsets@.len(),
                forall|k: int| 0 <= k < offsets@.len() ==> offsets@[k] < self@.len(),
                values@.len() == j,
                forall|k: int| 0 <= k < j ==> values@[k]@ == self@[offsets@[k] as int],
            decreases offsets@.len() - j,
        {
            values.push(self.values[offsets[j]].duplicate());
            j = j + 1;
        }
        assert(values.deep_view() =~= project_seq(self@, offsets@));
        Tuple { values }
    }
}

} // verus!
