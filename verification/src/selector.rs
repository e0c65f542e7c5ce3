//! Compiled predicates: selectors evaluated against a tuple and its schema.

use vstd::prelude::*;
use crate::tuple::{Tuple, Value, ValueV, dtype_of, value_lt, value_le, value_neq};
use crate::schema::{Column, ColumnV, TableInfoError, resolve_target, find_column};
use crate::statement::{Comparable, ComparableV, Condition, ConditionV, Operator, TargetRef, TargetRefV};

verus! {

/// The comparison a selector performs.
#[derive(Clone, Copy, PartialEq, Eq, Structural, Debug)]
pub enum SelKind {
    Equal,
    NotEqual,
    GT,
    LT,
    GE,
    LE,
}

/// Mathematical model of a [`RightHand`].
pub ghost enum RightHandV {
    Lit(ValueV),
    Offset(int),
}

/// The right operand of a selector: a literal, or an offset into the current
/// tuple.  Exactly one of the two forms is carried.
#[derive(Debug)]
pub enum RightHand {
    Lit(Value),
    Offset(usize),
}

impl View for RightHand {
    type V = RightHandV;

    open spec fn view(&self) -> RightHandV {
        match self {
            RightHand::Lit(v) => RightHandV::Lit(v@),
            RightHand::Offset(o) => RightHandV::Offset(*o as int),
        }
    }
}

impl DeepView for RightHand {
    type V = RightHandV;

    open spec fn deep_view(&self) -> RightHandV {
        self@
    }
}

/// Mathematical model of a [`Selector`].
pub ghost struct SelectorV {
    pub kind: SelKind,
    pub left: TargetRefV,
    pub right: RightHandV,
}

/// A compiled comparison predicate: `tuple[left] kind right`.
#[derive(Debug)]
pub struct Selector {
    pub kind: SelKind,
    pub left: TargetRef,
    pub right: RightHand,
}

impl View for Selector {
    type V = SelectorV;

    open spec fn view(&self) -> SelectorV {
        SelectorV { kind: self.kind, left: self.left@, right: self.right@ }
    }
}

impl DeepView for Selector {
    type V = SelectorV;

    open spec fn deep_view(&self) -> SelectorV {
        self@
    }
}

/// Whether one comparison holds of a pair of values.  Operands of different
/// dtypes never compare, whatever the kind.
pub open spec fn kind_holds(kind: SelKind, a: ValueV, b: ValueV) -> bool {
    match kind {
        SelKind::Equal => a == b,
        SelKind::NotEqual => value_neq(a, b),
        SelKind::GT => value_lt(b, a),
        SelKind::LT => value_lt(a, b),
        SelKind::GE => value_le(b, a),
        SelKind::LE => value_le(a, b),
    }
}

/// Whether a selector holds of a tuple under a schema.  An unresolvable
/// column, an out-of-range offset, or a dtype mismatch makes the selector
/// false rather than an error: the row is filtered, the pull never fails.
pub open spec fn sel_true(s: SelectorV, t: Seq<ValueV>, cols: Seq<ColumnV>) -> bool {
    match resolve_target(cols, s.left) {
        None => false,
        Some(off) => {
            if !(0 <= off < t.len()) {
                false
            } else {
                match s.right {
                    RightHandV::Lit(b) => kind_holds(s.kind, t[off], b),
                    RightHandV::Offset(o) => {
                        if !(0 <= o < t.len()) {
                            false
                        } else {
                            kind_holds(s.kind, t[off], t[o])
                        }
                    },
                }
            }
        },
    }
}

/// Whether every selector of a list holds of a tuple: the conjunctive
/// semantics Selection applies.
pub open spec fn all_true(sels: Seq<SelectorV>, t: Seq<ValueV>, cols: Seq<ColumnV>) -> bool {
    forall|i: int| 0 <= i < sels.len() ==> sel_true(#[trigger] sels[i], t, cols)
}

/// The subsequence of a tuple stream on which every selector holds, in the
/// stream's order.
pub open spec fn sel_filter(ts: Seq<Seq<ValueV>>, sels: Seq<SelectorV>, cols: Seq<ColumnV>) -> Seq<Seq<ValueV>>
    decreases ts.len(),
{
    if ts.len() == 0 {
        Seq::empty()
    } else if all_true(sels, ts[0], cols) {
        seq![ts[0]] + sel_filter(ts.drop_first(), sels, cols)
    } else {
        sel_filter(ts.drop_first(), sels, cols)
    }
}

impl Selector {
    /// Builds a selector.
    pub fn new(kind: SelKind, left: TargetRef, right: RightHand) -> (r: Selector)
        ensures
            r@ == (SelectorV { kind: kind, left: left@, right: right@ }),
    {
        Selector { kind, left, right }
    }

    /// Evaluates the selector against a tuple under a schema, per
    /// [`sel_true`].
    pub fn is_true(&self, tuple: &Tuple, columns: &Vec<Column>) -> (r: bool)
        ensures
            r == sel_true(self@, tuple@, columns.deep_view()),
    {
        let off = match find_column(columns, &self.left) {
            None => {
                return false;
            },
            Some(o) => o,
        };
        if off >= tuple.len() {
            return false;
        }
        let a = tuple.get(off);
        match &self.right {
            RightHand::Lit(b) => compare(self.kind, a, b),
            RightHand::Offset(o) => {
                if *o >= tuple.len() {
                    false
                } else {
                    compare(self.kind, a, tuple.get(*o))
                }
            },
        }
    }
}

/// Evaluates one comparison kind on a pair of values, per [`kind_holds`].
fn compare(kind: SelKind, a: &Value, b: &Value) -> (r: bool)
    ensures
        r == kind_holds(kind, a@, b@),
{
    match kind {
        SelKind::Equal => a.eq_value(b),
        SelKind::NotEqual => a.neq_value(b),
        SelKind::GT => b.lt_value(a),
        SelKind::LT => a.lt_value(b),
        SelKind::GE => b.le_value(a),
        SelKind::LE => a.le_value(b),
    }
}

/// Evaluates every selector of a list on a tuple, per [`all_true`].
pub fn eval_all(selectors: &Vec<Selector>, tuple: &Tuple, columns: &Vec<Column>) -> (r: bool)
    ensures
        r == all_true(selectors.deep_view(), tuple@, columns.deep_view()),
{
    let mut i: usize = 0;
    while i < selectors.len()
        invariant
            i <= selectors@.len(),
            forall|k: int| 0 <= k < i ==> sel_true(#[trigger] selectors.deep_view()[k], tuple@, columns.deep_view()),
        decreases selectors@.len() - i,
    {
        if !selectors[i].is_true(tuple, columns) {
            assert(!sel_true(selectors.deep_view()[i as int], tuple@, columns.deep_view()));
            return false;
        }
        i = i + 1;
    }
    true
}

/// The number of tuples a filter keeps never exceeds the number offered.
pub proof fn lemma_sel_filter_len(ts: Seq<Seq<ValueV>>, sels: Seq<SelectorV>, cols: Seq<ColumnV>)
    ensures
        sel_filter(ts, sels, cols).len() <= ts.len(),
    decreases ts.len(),
{
    if ts.len() > 0 {
        lemma_sel_filter_len(ts.drop_first(), sels, cols);
    }
}

/// An empty selector list filters nothing: the stream passes unchanged.
pub proof fn lemma_sel_filter_identity(ts: Seq<Seq<ValueV>>, sels: Seq<SelectorV>, cols: Seq<ColumnV>)
    requires
        sels.len() == 0,
    ensures
        sel_filter(ts, sels, cols) == ts,
    decreases ts.len(),
{
    if ts.len() > 0 {
        lemma_sel_filter_identity(ts.drop_first(), sels, cols);
        assert(sel_filter(ts, sels, cols) =~= ts);
    } else {
        assert(sel_filter(ts, sels, cols) =~= ts);
    }
}

/// A filter on which every offered tuple passes keeps the whole stream.
pub proof fn lemma_sel_filter_all_pass(ts: Seq<Seq<ValueV>>, sels: Seq<SelectorV>, cols: Seq<ColumnV>)
    requires
        forall|i: int| 0 <= i < ts.len() ==> all_true(sels, #[trigger] ts[i], cols),
    ensures
        sel_filter(ts, sels, cols) == ts,
    decreases ts.len(),
{
    if ts.len() > 0 {
        assert(forall|i: int| 0 <= i < ts.drop_first().len()
            ==> all_true(sels, #[trigger] ts.drop_first()[i], cols));
        lemma_sel_filter_all_pass(ts.drop_first(), sels, cols);
        assert(sel_filter(ts, sels, cols) =~= ts);
    } else {
        assert(sel_filter(ts, sels, cols) =~= ts);
    }
}

/// A filter that keeps as many tuples as were offered rejected none: every
/// offered tuple passes every selector.
pub proof fn lemma_sel_filter_full_means_all_pass(
    ts: Seq<Seq<ValueV>>,
    sels: Seq<SelectorV>,
    cols: Seq<ColumnV>,
)
    requires
        sel_filter(ts, sels, cols).len() == ts.len(),
    ensures
        forall|i: int| 0 <= i < ts.len() ==> all_true(sels, #[trigger] ts[i], cols),
    decreases ts.len(),
{
    if ts.len() > 0 {
        lemma_sel_filter_len(ts.drop_first(), sels, cols);
        assert(all_true(sels, ts[0], cols));
        lemma_sel_filter_full_means_all_pass(ts.drop_first(), sels, cols);
        assert(forall|i: int| 1 <= i < ts.len() ==> ts[i] == ts.drop_first()[i - 1]);
    }
}

/// Filtering keeps tuple widths: a filter over a stream of uniform width
/// emits tuples of that width.
pub proof fn lemma_sel_filter_widths(
    ts: Seq<Seq<ValueV>>,
    sels: Seq<SelectorV>,
    cols: Seq<ColumnV>,
    w: int,
)
    requires
        forall|i: int| 0 <= i < ts.len() ==> (#[trigger] ts[i]).len() == w,
    ensures
        forall|i: int| 0 <= i < sel_filter(ts, sels, cols).len()
            ==> (#[trigger] sel_filter(ts, sels, cols)[i]).len() == w,
    decreases ts.len(),
{
    if ts.len() > 0 {
        assert(forall|i: int| 0 <= i < ts.drop_first().len()
            ==> (#[trigger] ts.drop_first()[i]).len() == w);
        lemma_sel_filter_widths(ts.drop_first(), sels, cols, w);
        let f = sel_filter(ts, sels, cols);
        let rest = sel_filter(ts.drop_first(), sels, cols);
        if all_true(sels, ts[0], cols) {
            assert forall|i: int| 0 <= i < f.len() implies (#[trigger] f[i]).len() == w by {
                if i == 0 {
                    assert(f[i] == ts[0]);
                } else {
                    assert(f[i] == rest[i - 1]);
                }
            }
        }
    }
}

/// A selector list over a concatenation holds exactly when it holds over
/// both parts.
pub proof fn lemma_all_true_concat(
    s1: Seq<SelectorV>,
    s2: Seq<SelectorV>,
    t: Seq<ValueV>,
    cols: Seq<ColumnV>,
)
    ensures
        all_true(s1 + s2, t, cols) <==> (all_true(s1, t, cols) && all_true(s2, t, cols)),
{
    if all_true(s1 + s2, t, cols) {
        assert forall|i: int| 0 <= i < s1.len() implies sel_true(#[trigger] s1[i], t, cols) by {
            assert((s1 + s2)[i] == s1[i]);
        }
        assert forall|i: int| 0 <= i < s2.len() implies sel_true(#[trigger] s2[i], t, cols) by {
            assert((s1 + s2)[s1.len() + i] == s2[i]);
        }
    }
    if all_true(s1, t, cols) && all_true(s2, t, cols) {
        assert forall|i: int| 0 <= i < (s1 + s2).len()
            implies sel_true(#[trigger] (s1 + s2)[i], t, cols) by {
            if i < s1.len() {
                assert((s1 + s2)[i] == s1[i]);
            } else {
                assert((s1 + s2)[i] == s2[i - s1.len()]);
            }
        }
    }
}

/// Whether a selector's operands are comparable on a tuple: its column
/// resolves, its offsets are in range, and both operands share a dtype.
pub open spec fn sel_comparable(s: SelectorV, t: Seq<ValueV>, cols: Seq<ColumnV>) -> bool {
    match resolve_target(cols, s.left) {
        None => false,
        Some(off) => 0 <= off < t.len() && (match s.right {
            RightHandV::Lit(b) => dtype_of(t[off]) == dtype_of(b),
            RightHandV::Offset(o) => 0 <= o < t.len() && dtype_of(t[off]) == dtype_of(t[o]),
        }),
    }
}

/// On comparable operands, a `NotEqual` selector holds exactly when the
/// `Equal` selector over the same operands does not.
pub proof fn lemma_notequal_negates_equal(
    left: TargetRefV,
    right: RightHandV,
    t: Seq<ValueV>,
    cols: Seq<ColumnV>,
)
    requires
        sel_comparable(SelectorV { kind: SelKind::Equal, left: left, right: right }, t, cols),
    ensures
        sel_true(SelectorV { kind: SelKind::NotEqual, left: left, right: right }, t, cols)
            == !sel_true(SelectorV { kind: SelKind::Equal, left: left, right: right }, t, cols),
{
}

/// Whether `f` lists, in increasing order, positions of `b` at which the
/// elements of `a` stand: the witness that `a` is a subsequence of `b`.
pub open spec fn subsequence_via(f: Seq<int>, a: Seq<Seq<ValueV>>, b: Seq<Seq<ValueV>>) -> bool {
    &&& f.len() == a.len()
    &&& forall|i: int| 0 <= i < a.len() ==> 0 <= #[trigger] f[i] < b.len() && a[i] == b[f[i]]
    &&& forall|i: int| 0 <= i < a.len() - 1 ==> #[trigger] f[i] < f[i + 1]
}

/// Whether `a` occurs within `b` in order.
pub open spec fn is_subsequence(a: Seq<Seq<ValueV>>, b: Seq<Seq<ValueV>>) -> bool {
    exists|f: Seq<int>| subsequence_via(f, a, b)
}

/// Filtering is order-preserving: what a selector list keeps is a
/// subsequence of the stream it was offered.
pub proof fn lemma_sel_filter_subsequence(ts: Seq<Seq<ValueV>>, sels: Seq<SelectorV>, cols: Seq<ColumnV>)
    ensures
        is_subsequence(sel_filter(ts, sels, cols), ts),
    decreases ts.len(),
{
    if ts.len() == 0 {
        let f = Seq::<int>::empty();
        assert(subsequence_via(f, sel_filter(ts, sels, cols), ts));
    } else {
        lemma_sel_filter_subsequence(ts.drop_first(), sels, cols);
        let rest = sel_filter(ts.drop_first(), sels, cols);
        let f = choose|f: Seq<int>| subsequence_via(f, rest, ts.drop_first());
        let g = f.map(|_i: int, x: int| x + 1);
        assert(forall|i: int| 0 <= i < rest.len() ==> ts.drop_first()[#[trigger] f[i]] == ts[f[i] + 1]);
        if all_true(sels, ts[0], cols) {
            let h = seq![0int] + g;
            assert forall|i: int| 0 <= i < sel_filter(ts, sels, cols).len()
                implies 0 <= #[trigger] h[i] < ts.len() && sel_filter(ts, sels, cols)[i] == ts[h[i]] by {
                if i > 0 {
                    assert(h[i] == f[i - 1] + 1);
                    assert(sel_filter(ts, sels, cols)[i] == rest[i - 1]);
                }
            }
            assert(subsequence_via(h, sel_filter(ts, sels, cols), ts));
        } else {
            assert forall|i: int| 0 <= i < sel_filter(ts, sels, cols).len()
                implies 0 <= #[trigger] g[i] < ts.len() && sel_filter(ts, sels, cols)[i] == ts[g[i]] by {
                assert(g[i] == f[i] + 1);
            }
            assert(subsequence_via(g, sel_filter(ts, sels, cols), ts));
        }
    }
}

/// The direct (uninverted) selector kind for an operator: the join `ON`
/// mapping.
pub open spec fn direct_kind(op: Operator) -> SelKind {
    match op {
        Operator::Equ => SelKind::Equal,
        Operator::NEqu => SelKind::NotEqual,
        Operator::GT => SelKind::GT,
        Operator::LT => SelKind::LT,
        Operator::GE => SelKind::GE,
        Operator::LE => SelKind::LE,
    }
}

/// What compiling a join `ON` comparison against the merged schema yields:
/// one selector with the operator taken directly, or nothing when a named
/// right-hand column is unknown in that schema.
pub open spec fn compile_join_spec(c: ConditionV, cols: Seq<ColumnV>) -> Option<Seq<SelectorV>> {
    match c.right {
        ComparableV::Lit(v) => Some(
            seq![SelectorV { kind: direct_kind(c.op), left: c.left, right: RightHandV::Lit(v) }],
        ),
        ComparableV::Target(o) => Some(
            seq![SelectorV { kind: direct_kind(c.op), left: c.left, right: RightHandV::Offset(o) }],
        ),
        ComparableV::Word(t) => match resolve_target(cols, t) {
            None => None,
            Some(o) => Some(
                seq![SelectorV { kind: direct_kind(c.op), left: c.left, right: RightHandV::Offset(o) }],
            ),
        },
    }
}

/// Compiles the join `ON` comparison against the merged schema, per
/// [`compile_join_spec`]: the operator is used directly, and a named
/// right-hand column must resolve in that schema.
pub fn compile_join(condition: Condition, columns: &Vec<Column>) -> (r: Result<Vec<Selector>, TableInfoError>)
    ensures
        match r {
            Ok(sels) => compile_join_spec(condition@, columns.deep_view()) == Some(sels.deep_view()),
            Err(e) => compile_join_spec(condition@, columns.deep_view()) is None
                && e == TableInfoError::ColumnNotFoundError,
        },
{
    let kind = match condition.op {
        Operator::Equ => SelKind::Equal,
        Operator::NEqu => SelKind::NotEqual,
        Operator::GT => SelKind::GT,
        Operator::LT => SelKind::LT,
        Operator::GE => SelKind::GE,
        Operator::LE => SelKind::LE,
    };
    let right = match condition.right {
        Comparable::Lit(v) => RightHand::Lit(v),
        Comparable::Target(o) => RightHand::Offset(o),
        Comparable::Word(t) => match find_column(columns, &t) {
            None => {
                return Err(TableInfoError::ColumnNotFoundError);
            },
            Some(o) => RightHand::Offset(o),
        },
    };
    let ghost lv = condition.left@;
    let ghost rv = right@;
    let mut sels: Vec<Selector> = Vec::new();
    sels.push(Selector { kind, left: condition.left, right });
    proof {
        assert(sels.deep_view() =~= seq![SelectorV { kind: kind, left: lv, right: rv }]);
    }
    Ok(sels)
}

} // verus!
