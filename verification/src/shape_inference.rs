//! Symbolic tensor shapes and per-operator shape inference.
//!
//! A [`Dim`] is either a bound integer extent or a named placeholder; a
//! [`TensorShape`] is an ordered sequence of dimensions.  The
//! [`ShapeInferenceContext`] keeps a symbol table from value names to
//! shapes plus a binding table resolving placeholder names to extents,
//! and offers one inference routine per operator family.  Every
//! inference routine reports failure as `None` rather than panicking.

use vstd::prelude::*;

verus! {

/// One axis of a tensor shape: a bound extent or a named placeholder.
#[derive(Debug)]
pub enum Dim {
    Known(i64),
    Dynamic(String),
}

/// The mathematical value of a [`Dim`]: the extent itself, or the
/// placeholder's name as a sequence of characters.
pub enum DimView {
    Known(i64),
    Dynamic(Seq<char>),
}

impl View for Dim {
    type V = DimView;

    open spec fn view(&self) -> DimView {
        match self {
            Dim::Known(v) => DimView::Known(*v),
            Dim::Dynamic(name) => DimView::Dynamic(name@),
        }
    }
}

impl Clone for Dim {
    fn clone(&self) -> (r: Dim)
        ensures
            r@ == self@,
    {
        match self {
            Dim::Known(v) => Dim::Known(*v),
            Dim::Dynamic(name) => Dim::Dynamic(name.clone()),
        }
    }
}

impl PartialEq for Dim {
    fn eq(&self, other: &Dim) -> (r: bool) {
        match (self, other) {
            (Dim::Known(a), Dim::Known(b)) => *a == *b,
            (Dim::Dynamic(a), Dim::Dynamic(b)) => *a == *b,
            _ => false,
        }
    }
}

impl vstd::std_specs::cmp::PartialEqSpecImpl for Dim {
    open spec fn obeys_eq_spec() -> bool {
        true
    }

    open spec fn eq_spec(&self, other: &Dim) -> bool {
        match (self, other) {
            (Dim::Known(a), Dim::Known(b)) => a == b,
            (Dim::Dynamic(a), Dim::Dynamic(b)) => a@ == b@,
            _ => false,
        }
    }
}

/// An ordered sequence of dimensions; the length is the tensor's rank,
/// and an empty sequence denotes a scalar.
#[derive(Debug)]
pub struct TensorShape {
    pub dims: Vec<Dim>,
}

impl View for TensorShape {
    type V = Seq<DimView>;

    open spec fn view(&self) -> Seq<DimView> {
        self.dims@.map_values(|d: Dim| d@)
    }
}

impl Clone for TensorShape {
    fn clone(&self) -> (r: TensorShape)
        ensures
            r@ == self@,
    {
        let mut dims: Vec<Dim> = Vec::new();
        let mut i: usize = 0;
        while i < self.dims.len()
            invariant
                i <= self.dims.len(),
                dims@.len() == i,
                forall|j: int| 0 <= j < i ==> dims@[j]@ == self.dims@[j]@,
            decreases self.dims.len() - i,
        {
            dims.push(self.dims[i].clone());
            i = i + 1;
        }
        let r = TensorShape { dims };
        proof {
            assert(r@ =~= self@);
        }
        r
    }
}

/// A sequence of bound extents, as the mathematical image of a fully
/// concrete shape.
pub open spec fn known_dims(s: Seq<i64>) -> Seq<DimView> {
    s.map_values(|v: i64| DimView::Known(v))
}

/// Well-formedness of a dimension sequence: the rank stays within
/// `i64` (so axis arithmetic against the rank cannot overflow), and a
/// bound extent is never negative.
pub open spec fn dims_wf(s: Seq<DimView>) -> bool {
    &&& s.len() <= i64::MAX
    &&& forall|i: int|
        0 <= i < s.len() ==> match #[trigger] s[i] {
            DimView::Known(v) => v >= 0,
            DimView::Dynamic(_) => true,
        }
}

impl TensorShape {
    /// Well-formedness: rank within `i64`, bound extents non-negative.
    pub open spec fn wf(self) -> bool {
        dims_wf(self@)
    }

    pub fn new(dims: Vec<Dim>) -> (r: Self)
        ensures
            r.dims == dims,
            r@ == dims@.map_values(|d: Dim| d@),
    {
        Self { dims }
    }

    pub fn from_static(dims: Vec<i64>) -> (r: Self)
        ensures
            r@ == known_dims(dims@),
    {
        let mut out: Vec<Dim> = Vec::new();
        let mut i: usize = 0;
        while i < dims.len()
            invariant
                i <= dims.len(),
                out@.len() == i,
                forall|j: int| 0 <= j < i ==> out@[j]@ == DimView::Known(dims@[j]),
            decreases dims.len() - i,
        {
            out.push(Dim::Known(dims[i]));
            i = i + 1;
        }
        let r = Self { dims: out };
        proof {
            assert(r@ =~= known_dims(dims@));
        }
        r
    }

    /// Whether every dimension is a bound extent.
    pub open spec fn spec_fully_static(s: Seq<DimView>) -> bool {
        forall|i: int| 0 <= i < s.len() ==> s[i] is Known
    }

    pub fn is_fully_static(&self) -> (r: bool)
        ensures
            r == Self::spec_fully_static(self@),
    {
        let mut i: usize = 0;
        while i < self.dims.len()
            invariant
                i <= self.dims.len(),
                forall|j: int| 0 <= j < i ==> self@[j] is Known,
            decreases self.dims.len() - i,
        {
            match &self.dims[i] {
                Dim::Known(_) => {},
                Dim::Dynamic(_) => {
                    proof {
                        assert(self@[i as int] == self.dims@[i as int]@);
                    }
                    return false;
                },
            }
            i = i + 1;
        }
        true
    }

    pub fn rank(&self) -> (r: usize)
        ensures
            r == self@.len(),
    {
        self.dims.len()
    }

    /// Materialises the shape as a plain extent sequence, substituting
    /// every placeholder through the binding table; yields `None` as
    /// soon as any placeholder is unbound.
    pub fn to_static(&self, overrides: &Overrides) -> (r: Option<Vec<i64>>)
        ensures
            match r {
                Some(v) => all_resolved(self@, overrides@) && v@ == resolved_dims(
                    self@,
                    overrides@,
                ),
                None => !all_resolved(self@, overrides@),
            },
    {
        let mut out: Vec<i64> = Vec::new();
        let mut i: usize = 0;
        while i < self.dims.len()
            invariant
                i <= self.dims.len(),
                out@.len() == i,
                forall|j: int|
                    0 <= j < i ==> (#[trigger] dim_resolved(self@[j], overrides@)) is Some
                        && out@[j] == dim_resolved(self@[j], overrides@).unwrap(),
            decreases self.dims.len() - i,
        {
            proof {
                assert(self@[i as int] == self.dims@[i as int]@);
            }
            match &self.dims[i] {
                Dim::Known(v) => {
                    out.push(*v);
                },
                Dim::Dynamic(name) => {
                    match overrides.get(name.as_str()) {
                        Some(v) => {
                            out.push(v as i64);
                        },
                        None => {
                            proof {
                                assert((dim_resolved(self@[i as int], overrides@)) is None);
                            }
                            return None;
                        },
                    }
                },
            }
            i = i + 1;
        }
        proof {
            assert(out@ =~= resolved_dims(self@, overrides@));
        }
        Some(out)
    }
}

/// A binding table resolving placeholder names to concrete extents,
/// supplied once when an inference context is built.
pub struct Overrides {
    entries: Vec<(String, u32)>,
}

/// The mapping held by a binding table's entries; a later entry for the
/// same name overrides an earlier one.
pub open spec fn override_map(s: Seq<(String, u32)>) -> Map<Seq<char>, u32>
    decreases s.len(),
{
    if s.len() == 0 {
        Map::empty()
    } else {
        override_map(s.drop_last()).insert(s.last().0@, s.last().1)
    }
}

impl View for Overrides {
    type V = Map<Seq<char>, u32>;

    closed spec fn view(&self) -> Map<Seq<char>, u32> {
        override_map(self.entries@)
    }
}

proof fn lemma_override_map_absent(s: Seq<(String, u32)>, k: Seq<char>)
    requires
        forall|j: int| 0 <= j < s.len() ==> s[j].0@ != k,
    ensures
        !override_map(s).contains_key(k),
    decreases s.len(),
{
    if s.len() > 0 {
        lemma_override_map_absent(s.drop_last(), k);
    }
}

proof fn lemma_override_map_found(s: Seq<(String, u32)>, k: Seq<char>, j: int)
    requires
        0 <= j < s.len(),
        s[j].0@ == k,
        forall|l: int| j < l < s.len() ==> s[l].0@ != k,
    ensures
        override_map(s).contains_key(k),
        override_map(s)[k] == s[j].1,
    decreases s.len(),
{
    if j < s.len() - 1 {
        lemma_override_map_found(s.drop_last(), k, j);
    }
}

impl Overrides {
    pub fn new() -> (r: Self)
        ensures
            r@ == Map::<Seq<char>, u32>::empty(),
    {
        Overrides { entries: Vec::new() }
    }

    /// Binds `name` to `extent`, overriding any earlier binding.
    pub fn insert(&mut self, name: String, extent: u32)
        ensures
            final(self)@ == old(self)@.insert(name@, extent),
    {
        let ghost prior = self.entries@;
        self.entries.push((name, extent));
        proof {
            assert(self.entries@.drop_last() =~= prior);
        }
    }

    /// Looks up the extent bound to `name`, if any.
    pub fn get(&self, name: &str) -> (r: Option<u32>)
        ensures
            match r {
                Some(v) => self@.contains_key(name@) && self@[name@] == v,
                None => !self@.contains_key(name@),
            },
    {
        let mut i: usize = self.entries.len();
        while i > 0
            invariant
                i <= self.entries@.len(),
                forall|l: int| i <= l < self.entries@.len() ==> self.entries@[l].0@ != name@,
            decreases i,
        {
            i = i - 1;
            if crate::text::str_eq(self.entries[i].0.as_str(), name) {
                proof {
                    lemma_override_map_found(self.entries@, name@, i as int);
                }
                return Some(self.entries[i].1);
            }
        }
        proof {
            lemma_override_map_absent(self.entries@, name@);
        }
        None
    }
}

impl Default for Overrides {
    fn default() -> (r: Self)
        ensures
            r@ == Map::<Seq<char>, u32>::empty(),
    {
        Overrides::new()
    }
}

/// The concrete extent of one dimension under a binding table: a bound
/// extent stands for itself, and a placeholder resolves through the
/// table or not at all.
pub open spec fn dim_resolved(d: DimView, ov: Map<Seq<char>, u32>) -> Option<i64> {
    match d {
        DimView::Known(v) => Some(v),
        DimView::Dynamic(name) => if ov.contains_key(name) {
            Some(ov[name] as i64)
        } else {
            None
        },
    }
}

/// Whether every dimension of a shape resolves under the binding table.
pub open spec fn all_resolved(s: Seq<DimView>, ov: Map<Seq<char>, u32>) -> bool {
    forall|i: int| 0 <= i < s.len() ==> (#[trigger] dim_resolved(s[i], ov)) is Some
}

/// The fully concrete dimension sequence of a resolvable shape.
pub open spec fn resolved_dims(s: Seq<DimView>, ov: Map<Seq<char>, u32>) -> Seq<i64> {
    Seq::new(s.len(), |i: int| dim_resolved(s[i], ov).unwrap())
}

/// The result shape of a (batched) matrix multiply of two concrete
/// shapes: the trailing two dimensions contract as `(M, K) x (K, N)`,
/// and any leading dimensions broadcast together as batch dimensions.
pub open spec fn spec_matmul(sa: Seq<i64>, sb: Seq<i64>) -> Option<Seq<i64>> {
    if sa.len() < 2 || sb.len() < 2 {
        None
    } else if sa[sa.len() - 1] != sb[sb.len() - 2] {
        None
    } else {
        let batch_a = sa.take(sa.len() - 2);
        let batch_b = sb.take(sb.len() - 2);
        if broadcast_compatible(batch_a, batch_b) {
            Some(broadcast_seq(batch_a, batch_b) + seq![sa[sa.len() - 2], sb[sb.len() - 1]])
        } else {
            None
        }
    }
}

/// The result of permuting a shape's dimensions: dimension `i` of the
/// result is the input dimension at `perm[i]`, values copied without
/// concretisation.  No result if the permutation's length differs from
/// the rank or any index is out of range.
pub open spec fn spec_transpose(dims: Seq<DimView>, perm: Seq<usize>) -> Option<Seq<DimView>> {
    if perm.len() != dims.len() {
        None
    } else if exists|i: int| 0 <= i < perm.len() && (#[trigger] perm[i]) >= dims.len() {
        None
    } else {
        Some(Seq::new(perm.len(), |i: int| dims[perm[i] as int]))
    }
}

/// Whether position `i` of a rank-`rank` shape is named by the axis
/// list, either directly or as a negative index counted from the end.
pub open spec fn axis_match(axes: Seq<i64>, i: int, rank: int) -> bool {
    axes.contains(i as i64) || axes.contains((i - rank) as i64)
}

/// The result of reducing over an axis list: positions named by the
/// list are dropped, or replaced by extent 1 when `keep` is set; the
/// first `i` positions of `dims` are considered.
pub open spec fn spec_reduce(dims: Seq<i64>, axes: Seq<i64>, keep: bool, i: int) -> Seq<i64>
    decreases i,
{
    if i <= 0 {
        Seq::empty()
    } else {
        let rest = spec_reduce(dims, axes, keep, i - 1);
        if axis_match(axes, i - 1, dims.len() as int) {
            if keep {
                rest.push(1i64)
            } else {
                rest
            }
        } else {
            rest.push(dims[i - 1])
        }
    }
}

/// The result of squeezing every extent equal to 1 out of the first
/// `i` positions of a concrete shape.
pub open spec fn spec_squeeze_all(dims: Seq<i64>, i: int) -> Seq<i64>
    decreases i,
{
    if i <= 0 {
        Seq::empty()
    } else {
        let rest = spec_squeeze_all(dims, i - 1);
        if dims[i - 1] == 1 {
            rest
        } else {
            rest.push(dims[i - 1])
        }
    }
}

/// Whether every position named by the axis list has extent exactly 1.
pub open spec fn squeeze_axes_ok(dims: Seq<i64>, axes: Seq<i64>) -> bool {
    forall|i: int|
        0 <= i < dims.len() && #[trigger] axis_match(axes, i, dims.len() as int) ==> dims[i] == 1
}

/// The result of dropping the positions named by the axis list from
/// the first `i` positions of a concrete shape.
pub open spec fn spec_squeeze_axes(dims: Seq<i64>, axes: Seq<i64>, i: int) -> Seq<i64>
    decreases i,
{
    if i <= 0 {
        Seq::empty()
    } else {
        let rest = spec_squeeze_axes(dims, axes, i - 1);
        if axis_match(axes, i - 1, dims.len() as int) {
            rest
        } else {
            rest.push(dims[i - 1])
        }
    }
}

/// Joining one more input into a running concatenation result: the
/// ranks must agree, every extent off the concatenation axis must
/// agree, and the axis extents add (within `i64`).
pub open spec fn concat_pair(acc: Seq<i64>, s: Seq<i64>, axis: int) -> Option<Seq<i64>> {
    if s.len() != acc.len() {
        None
    } else if exists|j: int| 0 <= j < acc.len() && j != axis && #[trigger] acc[j] != s[j] {
        None
    } else if acc[axis] + s[axis] > i64::MAX || acc[axis] + s[axis] < i64::MIN {
        None
    } else {
        Some(acc.update(axis, (acc[axis] + s[axis]) as i64))
    }
}

/// The product of the first `i` extents of a concrete shape, folded
/// left to right.
pub open spec fn seq_product(s: Seq<i64>, i: int) -> int
    decreases i,
{
    if i <= 0 {
        1
    } else {
        seq_product(s, i - 1) * s[i - 1]
    }
}

/// Whether every running product of the extents stays within `i64`,
/// the way a left-to-right fold computes it.
pub open spec fn seq_products_in_range(s: Seq<i64>) -> bool {
    forall|k: int| 0 <= k <= s.len() ==> i64::MIN <= #[trigger] seq_product(s, k) <= i64::MAX
}

/// The product of the positive entries among the first `i` entries.
pub open spec fn pos_product(s: Seq<i64>, i: int) -> int
    decreases i,
{
    if i <= 0 {
        1
    } else {
        let rest = pos_product(s, i - 1);
        if s[i - 1] > 0 {
            rest * s[i - 1]
        } else {
            rest
        }
    }
}

/// Whether every running product of the positive entries stays within
/// `i64`.
pub open spec fn pos_products_in_range(s: Seq<i64>) -> bool {
    forall|k: int| 0 <= k <= s.len() ==> i64::MIN <= #[trigger] pos_product(s, k) <= i64::MAX
}

/// How many of the first `i` entries are the reshape wildcard `-1`.
pub open spec fn count_wildcards(s: Seq<i64>, i: int) -> nat
    decreases i,
{
    if i <= 0 {
        0
    } else {
        count_wildcards(s, i - 1) + if s[i - 1] == -1 {
            1nat
        } else {
            0nat
        }
    }
}

/// The result of reshaping a concrete shape to a target: at most one
/// `-1` entry is allowed and is inferred as the input's total element
/// count divided by the product of the target's positive entries; a
/// target without `-1` is returned as given.  A running product that
/// leaves `i64` yields no result.
pub open spec fn spec_reshape(sd: Seq<i64>, target: Seq<i64>) -> Option<Seq<i64>> {
    if count_wildcards(target, target.len() as int) > 1 {
        None
    } else if !seq_products_in_range(sd) {
        None
    } else if count_wildcards(target, target.len() as int) == 1 {
        if !pos_products_in_range(target) {
            None
        } else {
            let inferred = seq_product(sd, sd.len() as int) / pos_product(
                target,
                target.len() as int,
            );
            Some(
                Seq::new(
                    target.len(),
                    |j: int|
                        if target[j] == -1 {
                            inferred as i64
                        } else {
                            target[j]
                        },
                ),
            )
        }
    } else {
        Some(target)
    }
}

proof fn lemma_seq_product_nonneg(s: Seq<i64>, i: int)
    requires
        forall|k: int| 0 <= k < s.len() ==> s[k] >= 0,
        0 <= i <= s.len(),
    ensures
        seq_product(s, i) >= 0,
    decreases i,
{
    if i > 0 {
        lemma_seq_product_nonneg(s, i - 1);
        assert(seq_product(s, i - 1) * s[i - 1] >= 0) by (nonlinear_arith)
            requires
                seq_product(s, i - 1) >= 0,
                s[i - 1] >= 0,
        ;
    }
}

proof fn lemma_pos_product_pos(s: Seq<i64>, i: int)
    requires
        0 <= i <= s.len(),
    ensures
        pos_product(s, i) >= 1,
    decreases i,
{
    if i > 0 {
        lemma_pos_product_pos(s, i - 1);
        if s[i - 1] > 0 {
            assert(pos_product(s, i - 1) * s[i - 1] >= 1) by (nonlinear_arith)
                requires
                    pos_product(s, i - 1) >= 1,
                    s[i - 1] >= 1,
            ;
        }
    }
}

/// An axis index normalised against a rank: negative indices count
/// from the end.
pub open spec fn norm_axis(ax: i64, rank: int) -> int {
    if ax < 0 {
        ax + rank
    } else {
        ax as int
    }
}

/// Whether every axis, normalised against the output rank, names a
/// valid output position.
pub open spec fn unsqueeze_axes_in_range(axes: Seq<i64>, nr: int) -> bool {
    forall|i: int| 0 <= i < axes.len() ==> 0 <= #[trigger] norm_axis(axes[i], nr) < nr
}

/// Whether no two axes name the same output position once normalised.
pub open spec fn unsqueeze_axes_distinct(axes: Seq<i64>, nr: int) -> bool {
    forall|i: int, j: int|
        0 <= i < j < axes.len() ==> norm_axis(axes[i], nr) != norm_axis(axes[j], nr)
}

/// Whether output position `p` is named by some normalised axis.
pub open spec fn unsqueeze_marks(axes: Seq<i64>, nr: int, p: int) -> bool {
    exists|i: int| 0 <= i < axes.len() && #[trigger] norm_axis(axes[i], nr) == p
}

/// How many output positions below `p` are named by a normalised axis.
pub open spec fn marks_below(axes: Seq<i64>, nr: int, p: int) -> nat
    decreases p,
{
    if p <= 0 {
        0
    } else {
        marks_below(axes, nr, p - 1) + if unsqueeze_marks(axes, nr, p - 1) {
            1nat
        } else {
            0nat
        }
    }
}

proof fn lemma_marks_below_none(axes: Seq<i64>, nr: int, p: int)
    requires
        axes.len() == 0,
        0 <= p,
    ensures
        marks_below(axes, nr, p) == 0,
    decreases p,
{
    if p > 0 {
        lemma_marks_below_none(axes, nr, p - 1);
        assert(!unsqueeze_marks(axes, nr, p - 1));
    }
}

proof fn lemma_marks_below_drop(axes: Seq<i64>, nr: int, p: int)
    requires
        axes.len() > 0,
        0 <= p,
        unsqueeze_axes_distinct(axes, nr),
    ensures
        marks_below(axes, nr, p) == marks_below(axes.drop_last(), nr, p) + if 0 <= norm_axis(
            axes.last(),
            nr,
        ) < p {
            1nat
        } else {
            0nat
        },
    decreases p,
{
    if p > 0 {
        lemma_marks_below_drop(axes, nr, p - 1);
        let q = p - 1;
        let short = axes.drop_last();
        let last = norm_axis(axes.last(), nr);
        if last == q {
            assert(norm_axis(axes[axes.len() - 1], nr) == q);
            assert(unsqueeze_marks(axes, nr, q));
            if unsqueeze_marks(short, nr, q) {
                let i = choose|i: int| 0 <= i < short.len() && norm_axis(short[i], nr) == q;
                assert(short[i] == axes[i]);
                assert(norm_axis(axes[i], nr) == norm_axis(axes[axes.len() - 1], nr));
                assert(false);
            }
        } else {
            if unsqueeze_marks(axes, nr, q) {
                let i = choose|i: int| 0 <= i < axes.len() && norm_axis(axes[i], nr) == q;
                assert(i < axes.len() - 1);
                assert(short[i] == axes[i]);
                assert(unsqueeze_marks(short, nr, q));
            }
            if unsqueeze_marks(short, nr, q) {
                let i = choose|i: int| 0 <= i < short.len() && norm_axis(short[i], nr) == q;
                assert(short[i] == axes[i]);
                assert(unsqueeze_marks(axes, nr, q));
            }
        }
    }
}

proof fn lemma_marks_total(axes: Seq<i64>, nr: int)
    requires
        unsqueeze_axes_in_range(axes, nr),
        unsqueeze_axes_distinct(axes, nr),
    ensures
        marks_below(axes, nr, nr) == axes.len(),
    decreases axes.len(),
{
    if axes.len() == 0 {
        if nr >= 0 {
            lemma_marks_below_none(axes, nr, nr);
        }
    } else {
        let short = axes.drop_last();
        assert forall|i: int| 0 <= i < short.len() implies 0 <= #[trigger] norm_axis(
            short[i],
            nr,
        ) < nr by {
            assert(short[i] == axes[i]);
            assert(0 <= norm_axis(axes[i], nr) < nr);
        }
        assert forall|i: int, j: int| 0 <= i < j < short.len() implies norm_axis(short[i], nr)
            != norm_axis(short[j], nr) by {
            assert(short[i] == axes[i]);
            assert(short[j] == axes[j]);
        }
        lemma_marks_total(short, nr);
        assert(0 <= norm_axis(axes[axes.len() - 1], nr) < nr);
        lemma_marks_below_drop(axes, nr, nr);
    }
}

proof fn lemma_marks_below_mono(axes: Seq<i64>, nr: int, p: int, q: int)
    requires
        0 <= p <= q,
    ensures
        marks_below(axes, nr, q) <= marks_below(axes, nr, p) + (q - p),
        marks_below(axes, nr, p) <= marks_below(axes, nr, q),
    decreases q - p,
{
    if p < q {
        lemma_marks_below_mono(axes, nr, p, q - 1);
    }
}

/// The result of inserting bound extent-1 dimensions at the positions
/// named by the axis list, normalised against the output rank; the
/// input's dimensions fill the remaining positions in order, copied
/// without resolving.  No result if a normalised axis is out of range
/// or two axes collide.
pub open spec fn spec_unsqueeze(dims: Seq<DimView>, axes: Seq<i64>) -> Option<Seq<DimView>> {
    let nr = dims.len() + axes.len();
    if nr > usize::MAX || nr > i64::MAX {
        None
    } else if !unsqueeze_axes_in_range(axes, nr as int) || !unsqueeze_axes_distinct(
        axes,
        nr as int,
    ) {
        None
    } else {
        Some(
            Seq::new(
                nr as nat,
                |p: int|
                    if unsqueeze_marks(axes, nr as int, p) {
                        DimView::Known(1)
                    } else {
                        dims[p - marks_below(axes, nr as int, p)]
                    },
            ),
        )
    }
}

/// Whether the slice contains the given value.
fn contains_i64(xs: &[i64], v: i64) -> (r: bool)
    ensures
        r == xs@.contains(v),
{
    let mut i: usize = 0;
    while i < xs.len()
        invariant
            i <= xs.len(),
            forall|j: int| 0 <= j < i ==> xs@[j] != v,
        decreases xs.len() - i,
    {
        if xs[i] == v {
            proof {
                assert(xs@[i as int] == v);
            }
            return true;
        }
        i = i + 1;
    }
    false
}

/// Whether the vector contains the given value.
fn contains_usize(xs: &Vec<usize>, v: usize) -> (r: bool)
    ensures
        r == xs@.contains(v),
{
    let mut i: usize = 0;
    while i < xs.len()
        invariant
            i <= xs.len(),
            forall|j: int| 0 <= j < i ==> xs@[j] != v,
        decreases xs.len() - i,
    {
        if xs[i] == v {
            proof {
                assert(xs@[i as int] == v);
            }
            return true;
        }
        i = i + 1;
    }
    false
}

/// The broadcast of one aligned pair of extents: the common value if
/// both are equal, the non-1 value if exactly one side is 1, and no
/// result for any other mismatch.
pub open spec fn broadcast_dim(a: i64, b: i64) -> Option<i64> {
    if a == b {
        Some(a)
    } else if a == 1 {
        Some(b)
    } else if b == 1 {
        Some(a)
    } else {
        None
    }
}

/// The extent of `s` at position `i` of a rank-`n` result, after `s`
/// has been padded on its leading side with 1s up to rank `n`.
pub open spec fn padded_dim(s: Seq<i64>, n: int, i: int) -> i64 {
    if i >= n - s.len() {
        s[i - (n - s.len())]
    } else {
        1
    }
}

/// The rank of the broadcast of two shapes: the larger of the two ranks.
pub open spec fn broadcast_rank(a: Seq<i64>, b: Seq<i64>) -> int {
    if a.len() >= b.len() {
        a.len() as int
    } else {
        b.len() as int
    }
}

/// The broadcast of the two extents aligned at position `i` of the
/// result, once both shapes are padded to the result's rank.
pub open spec fn broadcast_at(a: Seq<i64>, b: Seq<i64>, i: int) -> Option<i64> {
    let n = broadcast_rank(a, b);
    broadcast_dim(padded_dim(a, n, i), padded_dim(b, n, i))
}

/// Whether two concrete shapes broadcast together: every right-aligned
/// pair of extents must agree or have a 1 on one side.
pub open spec fn broadcast_compatible(a: Seq<i64>, b: Seq<i64>) -> bool {
    forall|i: int| 0 <= i < broadcast_rank(a, b) ==> (#[trigger] broadcast_at(a, b, i)) is Some
}

/// The broadcast result of two compatible concrete shapes.
pub open spec fn broadcast_seq(a: Seq<i64>, b: Seq<i64>) -> Seq<i64> {
    Seq::new(broadcast_rank(a, b) as nat, |i: int| broadcast_at(a, b, i).unwrap())
}

/// Broadcast two concrete shapes following the trailing-alignment rule:
/// the shorter shape is padded on its leading side with 1s, then extents
/// are combined pairwise; incompatible extents yield `None`.
///
/// The loop walks from the trailing (innermost) dimension toward the
/// leading one, since shapes of different rank align on their right edge.
pub fn broadcast_shapes(a: &[i64], b: &[i64]) -> (r: Option<Vec<i64>>)
    ensures
        match r {
            Some(v) => broadcast_compatible(a@, b@) && v@ == broadcast_seq(a@, b@),
            None => !broadcast_compatible(a@, b@),
        },
{
    let max_len: usize = if a.len() >= b.len() {
        a.len()
    } else {
        b.len()
    };
    let mut rev: Vec<i64> = Vec::new();

    let mut i: usize = 0;
    while i < max_len
        invariant
            i <= max_len,
            max_len == broadcast_rank(a@, b@),
            rev@.len() == i,
            forall|k: int|
                0 <= k < i ==> (#[trigger] broadcast_at(a@, b@, max_len - 1 - k)) is Some
                    && rev@[k] == broadcast_at(a@, b@, max_len - 1 - k).unwrap(),
        decreases max_len - i,
    {
        let dim_a: i64 = if i < a.len() {
            a[a.len() - 1 - i]
        } else {
            1
        };
        let dim_b: i64 = if i < b.len() {
            b[b.len() - 1 - i]
        } else {
            1
        };
        proof {
            assert(dim_a == padded_dim(a@, max_len as int, max_len - 1 - i));
            assert(dim_b == padded_dim(b@, max_len as int, max_len - 1 - i));
            assert(broadcast_at(a@, b@, max_len - 1 - i) == broadcast_dim(dim_a, dim_b));
        }
        if dim_a == dim_b {
            rev.push(dim_a);
        } else if dim_a == 1 {
            rev.push(dim_b);
        } else if dim_b == 1 {
            rev.push(dim_a);
        } else {
            return None;
        }
        i = i + 1;
    }
    proof {
        assert forall|p: int| 0 <= p < max_len implies (#[trigger] broadcast_at(
            a@,
            b@,
            p,
        )) is Some by {
            assert(broadcast_at(a@, b@, max_len - 1 - (max_len - 1 - p)) is Some);
        }
    }

    let mut result: Vec<i64> = Vec::new();
    let mut j: usize = max_len;
    while j > 0
        invariant
            j <= max_len,
            rev@.len() == max_len,
            result@.len() == max_len - j,
            forall|k: int| 0 <= k < max_len - j ==> result@[k] == rev@[max_len - 1 - k],
        decreases j,
    {
        j = j - 1;
        result.push(rev[j]);
    }
    proof {
        assert forall|p: int| 0 <= p < max_len implies result@[p] == broadcast_at(
            a@,
            b@,
            p,
        ).unwrap() by {
            assert(broadcast_at(a@, b@, max_len - 1 - (max_len - 1 - p)) is Some);
            assert(result@[p] == rev@[max_len - 1 - p]);
        }
        assert(result@ =~= broadcast_seq(a@, b@));
    }
    Some(result)
}

/// The symbol table of one shape-inference pass: value names mapped to
/// their inferred shapes, plus the binding table for placeholders.
pub struct ShapeInferenceContext {
    value_shapes: Vec<(String, TensorShape)>,
    overrides: Overrides,
}

/// The mapping held by the symbol table's entries; a later entry for
/// the same name overrides an earlier one.
pub open spec fn shape_map(s: Seq<(String, TensorShape)>) -> Map<Seq<char>, Seq<DimView>>
    decreases s.len(),
{
    if s.len() == 0 {
        Map::empty()
    } else {
        shape_map(s.drop_last()).insert(s.last().0@, s.last().1@)
    }
}

proof fn lemma_shape_map_absent(s: Seq<(String, TensorShape)>, k: Seq<char>)
    requires
        forall|j: int| 0 <= j < s.len() ==> s[j].0@ != k,
    ensures
        !shape_map(s).contains_key(k),
    decreases s.len(),
{
    if s.len() > 0 {
        lemma_shape_map_absent(s.drop_last(), k);
    }
}

proof fn lemma_shape_map_found(s: Seq<(String, TensorShape)>, k: Seq<char>, j: int)
    requires
        0 <= j < s.len(),
        s[j].0@ == k,
        forall|l: int| j < l < s.len() ==> s[l].0@ != k,
    ensures
        shape_map(s).contains_key(k),
        shape_map(s)[k] == s[j].1@,
    decreases s.len(),
{
    if j < s.len() - 1 {
        lemma_shape_map_found(s.drop_last(), k, j);
    }
}

impl ShapeInferenceContext {
    /// The recorded mapping from value names to shapes.
    pub closed spec fn shapes(&self) -> Map<Seq<char>, Seq<DimView>> {
        shape_map(self.value_shapes@)
    }

    /// The binding table resolving placeholder names.
    pub closed spec fn bindings(&self) -> Map<Seq<char>, u32> {
        self.overrides@
    }

    /// Every recorded shape is well-formed: rank within `i64`, bound
    /// extents non-negative.
    pub open spec fn wf(&self) -> bool {
        forall|n: Seq<char>| self.shapes().contains_key(n) ==> dims_wf(#[trigger] self.shapes()[n])
    }

    /// The concrete dimension sequence of the shape recorded under
    /// `name`, if the name is recorded and every placeholder resolves.
    pub open spec fn resolved_input(&self, name: Seq<char>) -> Option<Seq<i64>> {
        if self.shapes().contains_key(name) && all_resolved(self.shapes()[name], self.bindings()) {
            Some(resolved_dims(self.shapes()[name], self.bindings()))
        } else {
            None
        }
    }

    pub fn new() -> (r: Self)
        ensures
            r.shapes() == Map::<Seq<char>, Seq<DimView>>::empty(),
            r.bindings() == Map::<Seq<char>, u32>::empty(),
            r.wf(),
    {
        ShapeInferenceContext { value_shapes: Vec::new(), overrides: Overrides::new() }
    }

    pub fn with_overrides(overrides: Overrides) -> (r: Self)
        ensures
            r.shapes() == Map::<Seq<char>, Seq<DimView>>::empty(),
            r.bindings() == overrides@,
            r.wf(),
    {
        ShapeInferenceContext { value_shapes: Vec::new(), overrides }
    }

    /// Records (or overwrites) the shape of a value.
    pub fn set_shape(&mut self, name: String, shape: TensorShape)
        requires
            old(self).wf(),
            shape.wf(),
        ensures
            final(self).shapes() == old(self).shapes().insert(name@, shape@),
            final(self).bindings() == old(self).bindings(),
            final(self).wf(),
    {
        let ghost prior = self.value_shapes@;
        self.value_shapes.push((name, shape));
        proof {
            assert(self.value_shapes@.drop_last() =~= prior);
        }
    }

    /// Looks up the shape recorded under `name`, if any.
    pub fn get_shape(&self, name: &str) -> (r: Option<&TensorShape>)
        ensures
            match r {
                Some(s) => self.shapes().contains_key(name@) && s@ == self.shapes()[name@],
                None => !self.shapes().contains_key(name@),
            },
    {
        let mut i: usize = self.value_shapes.len();
        while i > 0
            invariant
                i <= self.value_shapes@.len(),
                forall|l: int|
                    i <= l < self.value_shapes@.len() ==> self.value_shapes@[l].0@ != name@,
            decreases i,
        {
            i = i - 1;
            if crate::text::str_eq(self.value_shapes[i].0.as_str(), name) {
                proof {
                    lemma_shape_map_found(self.value_shapes@, name@, i as int);
                }
                return Some(&self.value_shapes[i].1);
            }
        }
        proof {
            lemma_shape_map_absent(self.value_shapes@, name@);
        }
        None
    }

    /// Shape rule for binary elementwise operators, as a function of
    /// the context: both inputs resolved, then broadcast together.
    pub open spec fn binary_result(&self, a: Seq<char>, b: Seq<char>) -> Option<Seq<i64>> {
        match (self.resolved_input(a), self.resolved_input(b)) {
            (Some(sa), Some(sb)) => if broadcast_compatible(sa, sb) {
                Some(broadcast_seq(sa, sb))
            } else {
                None
            },
            _ => None,
        }
    }

    /// Shape rule for binary elementwise operators: resolve both inputs
    /// to concrete extents and broadcast them.
    pub fn infer_binary_op(&self, a: &str, b: &str) -> (r: Option<TensorShape>)
        ensures
            match r {
                Some(t) => self.binary_result(a@, b@) is Some && t@ == known_dims(
                    self.binary_result(a@, b@).unwrap(),
                ),
                None => self.binary_result(a@, b@) is None,
            },
    {
        let shape_a = match self.get_shape(a) {
            Some(s) => s,
            None => {
                return None;
            },
        };
        let shape_b = match self.get_shape(b) {
            Some(s) => s,
            None => {
                return None;
            },
        };
        let static_a = match shape_a.to_static(&self.overrides) {
            Some(v) => v,
            None => {
                return None;
            },
        };
        let static_b = match shape_b.to_static(&self.overrides) {
            Some(v) => v,
            None => {
                return None;
            },
        };
        match broadcast_shapes(static_a.as_slice(), static_b.as_slice()) {
            Some(result) => Some(TensorShape::from_static(result)),
            None => None,
        }
    }

    /// Shape rule for (batched) matrix multiply, as a function of the
    /// context: both operands resolved, contraction dimensions equal,
    /// batch dimensions broadcast, result `batch ++ [M, N]`.
    pub open spec fn matmul_result(&self, a: Seq<char>, b: Seq<char>) -> Option<Seq<i64>> {
        match (self.resolved_input(a), self.resolved_input(b)) {
            (Some(sa), Some(sb)) => spec_matmul(sa, sb),
            _ => None,
        }
    }

    /// Shape rule for (batched) matrix multiply: with trailing
    /// dimensions `(M, K)` and `(K, N)`, the result is the broadcast of
    /// the leading (batch) dimensions followed by `[M, N]`.
    pub fn infer_matmul(&self, a: &str, b: &str) -> (r: Option<TensorShape>)
        ensures
            match r {
                Some(t) => self.matmul_result(a@, b@) is Some && t@ == known_dims(
                    self.matmul_result(a@, b@).unwrap(),
                ),
                None => self.matmul_result(a@, b@) is None,
            },
    {
        let shape_a = match self.get_shape(a) {
            Some(s) => s,
            None => {
                return None;
            },
        };
        let shape_b = match self.get_shape(b) {
            Some(s) => s,
            None => {
                return None;
            },
        };
        let static_a = match shape_a.to_static(&self.overrides) {
            Some(v) => v,
            None => {
                return None;
            },
        };
        let static_b = match shape_b.to_static(&self.overrides) {
            Some(v) => v,
            None => {
                return None;
            },
        };

        if static_a.len() < 2 || static_b.len() < 2 {
            return None;
        }

        let m = static_a[static_a.len() - 2];
        let k_a = static_a[static_a.len() - 1];
        let k_b = static_b[static_b.len() - 2];
        let n = static_b[static_b.len() - 1];

        if k_a != k_b {
            return None;
        }

        let mut result: Vec<i64> = Vec::new();

        if static_a.len() > 2 || static_b.len() > 2 {
            let mut batch_a: Vec<i64> = Vec::new();
            let mut i: usize = 0;
            while i < static_a.len() - 2
                invariant
                    static_a@.len() >= 2,
                    i <= static_a@.len() - 2,
                    batch_a@ =~= static_a@.take(i as int),
                decreases static_a.len() - 2 - i,
            {
                batch_a.push(static_a[i]);
                i = i + 1;
            }
            let mut batch_b: Vec<i64> = Vec::new();
            let mut j: usize = 0;
            while j < static_b.len() - 2
                invariant
                    static_b@.len() >= 2,
                    j <= static_b@.len() - 2,
                    batch_b@ =~= static_b@.take(j as int),
                decreases static_b.len() - 2 - j,
            {
                batch_b.push(static_b[j]);
                j = j + 1;
            }
            match broadcast_shapes(batch_a.as_slice(), batch_b.as_slice()) {
                Some(batch) => {
                    result = batch;
                },
                None => {
                    return None;
                },
            }
        }

        result.push(m);
        result.push(n);

        proof {
            let sa = static_a@;
            let sb = static_b@;
            let batch_a_s = sa.take(sa.len() - 2);
            let batch_b_s = sb.take(sb.len() - 2);
            if sa.len() == 2 && sb.len() == 2 {
                assert(batch_a_s =~= Seq::<i64>::empty());
                assert(batch_b_s =~= Seq::<i64>::empty());
                assert(broadcast_compatible(batch_a_s, batch_b_s));
                assert(broadcast_seq(batch_a_s, batch_b_s) =~= Seq::<i64>::empty());
            }
            assert(result@ =~= broadcast_seq(batch_a_s, batch_b_s) + seq![m, n]);
        }
        Some(TensorShape::from_static(result))
    }

    /// Shape rule for transpose, as a function of the context.
    pub open spec fn transpose_result(&self, input: Seq<char>, perm: Seq<usize>) -> Option<
        Seq<DimView>,
    > {
        if self.shapes().contains_key(input) {
            spec_transpose(self.shapes()[input], perm)
        } else {
            None
        }
    }

    /// Shape rule for transpose: dimension `i` of the result is the
    /// input dimension at `perm[i]`, copied without resolving.
    pub fn infer_transpose(&self, input: &str, perm: &[usize]) -> (r: Option<TensorShape>)
        ensures
            match r {
                Some(t) => self.transpose_result(input@, perm@) is Some && t@
                    == self.transpose_result(input@, perm@).unwrap(),
                None => self.transpose_result(input@, perm@) is None,
            },
    {
        let shape = match self.get_shape(input) {
            Some(s) => s,
            None => {
                return None;
            },
        };

        if perm.len() != shape.dims.len() {
            return None;
        }

        let mut result_dims: Vec<Dim> = Vec::new();
        let mut i: usize = 0;
        while i < perm.len()
            invariant
                i <= perm@.len(),
                perm@.len() == shape@.len(),
                result_dims@.len() == i,
                forall|j: int| 0 <= j < i ==> perm@[j] < shape@.len(),
                forall|j: int|
                    0 <= j < i ==> (#[trigger] result_dims@[j])@ == shape@[perm@[j] as int],
            decreases perm.len() - i,
        {
            let p = perm[i];
            if p >= shape.dims.len() {
                proof {
                    assert(perm@[i as int] >= shape@.len());
                }
                return None;
            }
            proof {
                assert(shape@[p as int] == shape.dims@[p as int]@);
            }
            result_dims.push(shape.dims[p].clone());
            i = i + 1;
        }

        let r = TensorShape::new(result_dims);
        proof {
            assert(r@ =~= spec_transpose(shape@, perm@).unwrap());
        }
        Some(r)
    }

    /// Shape rule for reduce, as a function of the context: the input
    /// resolved, axis positions dropped or kept as extent 1.
    pub open spec fn reduce_result(&self, input: Seq<char>, axes: Seq<i64>, keep: bool) -> Option<
        Seq<i64>,
    > {
        match self.resolved_input(input) {
            Some(sd) => Some(spec_reduce(sd, axes, keep, sd.len() as int)),
            None => None,
        }
    }

    /// Shape rule for reduce: each position named by the axis list
    /// (directly or as a negative index) is dropped, or replaced by
    /// extent 1 when `keep_dims` is set; other extents pass through.
    pub fn infer_reduce(&self, input: &str, axes: &[i64], keep_dims: bool) -> (r: Option<
        TensorShape,
    >)
        requires
            self.wf(),
        ensures
            match r {
                Some(t) => self.reduce_result(input@, axes@, keep_dims) is Some && t@ == known_dims(
                    self.reduce_result(input@, axes@, keep_dims).unwrap(),
                ),
                None => self.reduce_result(input@, axes@, keep_dims) is None,
            },
    {
        let shape = match self.get_shape(input) {
            Some(s) => s,
            None => {
                return None;
            },
        };
        let static_shape = match shape.to_static(&self.overrides) {
            Some(v) => v,
            None => {
                return None;
            },
        };

        let rank = static_shape.len();
        let mut result: Vec<i64> = Vec::new();
        let mut i: usize = 0;
        while i < rank
            invariant
                i <= rank,
                rank == static_shape@.len(),
                rank <= i64::MAX,
                result@ =~= spec_reduce(static_shape@, axes@, keep_dims, i as int),
            decreases rank - i,
        {
            let i_signed = i as i64;
            let hit = contains_i64(axes, i_signed) || contains_i64(axes, i_signed - rank as i64);
            proof {
                assert(hit == axis_match(axes@, i as int, static_shape@.len() as int));
            }
            if hit {
                if keep_dims {
                    result.push(1);
                }
            } else {
                result.push(static_shape[i]);
            }
            i = i + 1;
        }
        Some(TensorShape::from_static(result))
    }

    /// Shape rule for reshape, as a function of the context.
    pub open spec fn reshape_result(&self, input: Seq<char>, target: Seq<i64>) -> Option<
        Seq<i64>,
    > {
        match self.resolved_input(input) {
            Some(sd) => spec_reshape(sd, target),
            None => None,
        }
    }

    /// Shape rule for reshape: the target shape is returned with its
    /// single `-1` entry, if present, replaced by the input's total
    /// element count divided by the product of the target's positive
    /// entries.  More than one `-1` yields no result.
    #[verifier::loop_isolation(false)]
    pub fn infer_reshape(&self, input: &str, new_shape: &[i64]) -> (r: Option<TensorShape>)
        requires
            self.wf(),
        ensures
            match r {
                Some(t) => self.reshape_result(input@, new_shape@) is Some && t@ == known_dims(
                    self.reshape_result(input@, new_shape@).unwrap(),
                ),
                None => self.reshape_result(input@, new_shape@) is None,
            },
    {
        let shape = match self.get_shape(input) {
            Some(s) => s,
            None => {
                return None;
            },
        };
        let static_shape = match shape.to_static(&self.overrides) {
            Some(v) => v,
            None => {
                return None;
            },
        };
        proof {
            assert(dims_wf(shape@));
            assert forall|k: int| 0 <= k < static_shape@.len() implies static_shape@[k] >= 0 by {
                assert(dim_resolved(shape@[k], self.bindings()) is Some);
            }
        }

        let mut neg_count: usize = 0;
        let mut i: usize = 0;
        while i < new_shape.len()
            invariant
                i <= new_shape@.len(),
                neg_count <= i,
                neg_count == count_wildcards(new_shape@, i as int),
            decreases new_shape.len() - i,
        {
            if new_shape[i] == -1 {
                neg_count = neg_count + 1;
            }
            i = i + 1;
        }
        if neg_count > 1 {
            return None;
        }

        let mut total: i64 = 1;
        let mut k: usize = 0;
        while k < static_shape.len()
            invariant
                k <= static_shape@.len(),
                total == seq_product(static_shape@, k as int),
                forall|j: int|
                    0 <= j <= k ==> i64::MIN <= #[trigger] seq_product(static_shape@, j)
                        <= i64::MAX,
            decreases static_shape.len() - k,
        {
            match total.checked_mul(static_shape[k]) {
                Some(p) => {
                    total = p;
                },
                None => {
                    proof {
                        assert(!(i64::MIN <= seq_product(static_shape@, k + 1) <= i64::MAX));
                        assert(!seq_products_in_range(static_shape@));
                    }
                    return None;
                },
            }
            k = k + 1;
        }
        proof {
            assert(seq_products_in_range(static_shape@));
        }

        if neg_count == 1 {
            let mut known: i64 = 1;
            let mut k2: usize = 0;
            while k2 < new_shape.len()
                invariant
                    k2 <= new_shape@.len(),
                    known == pos_product(new_shape@, k2 as int),
                    forall|j: int|
                        0 <= j <= k2 ==> i64::MIN <= #[trigger] pos_product(new_shape@, j)
                            <= i64::MAX,
                decreases new_shape.len() - k2,
            {
                let v = new_shape[k2];
                if v > 0 {
                    match known.checked_mul(v) {
                        Some(p) => {
                            known = p;
                        },
                        None => {
                            proof {
                                assert(!(i64::MIN <= pos_product(new_shape@, k2 + 1) <= i64::MAX));
                                assert(!pos_products_in_range(new_shape@));
                            }
                            return None;
                        },
                    }
                }
                k2 = k2 + 1;
            }
            proof {
                assert(pos_products_in_range(new_shape@));
                lemma_seq_product_nonneg(static_shape@, static_shape@.len() as int);
                lemma_pos_product_pos(new_shape@, new_shape@.len() as int);
            }

            let inferred_u: u64 = (total as u64) / (known as u64);
            proof {
                vstd::arithmetic::div_mod::lemma_div_nonincreasing(total as int, known as int);
            }
            let inferred: i64 = inferred_u as i64;

            let mut result: Vec<i64> = Vec::new();
            let mut j: usize = 0;
            while j < new_shape.len()
                invariant
                    j <= new_shape@.len(),
                    result@.len() == j,
                    forall|l: int|
                        0 <= l < j ==> #[trigger] result@[l] == if new_shape@[l] == -1 {
                            (seq_product(static_shape@, static_shape@.len() as int) / pos_product(
                                new_shape@,
                                new_shape@.len() as int,
                            )) as i64
                        } else {
                            new_shape@[l]
                        },
                decreases new_shape.len() - j,
            {
                let v = new_shape[j];
                if v == -1 {
                    result.push(inferred);
                } else {
                    result.push(v);
                }
                j = j + 1;
            }
            proof {
                assert(result@ =~= spec_reshape(static_shape@, new_shape@).unwrap());
            }
            Some(TensorShape::from_static(result))
        } else {
            let mut result: Vec<i64> = Vec::new();
            let mut j: usize = 0;
            while j < new_shape.len()
                invariant
                    j <= new_shape@.len(),
                    result@ =~= new_shape@.take(j as int),
                decreases new_shape.len() - j,
            {
                result.push(new_shape[j]);
                j = j + 1;
            }
            proof {
                assert(result@ =~= new_shape@);
            }
            Some(TensorShape::from_static(result))
        }
    }

    /// Shape rule for squeeze, as a function of the context.  An empty
    /// axis list drops every extent equal to 1; a non-empty list drops
    /// exactly the named positions, each of which must have extent 1.
    pub open spec fn squeeze_result(&self, input: Seq<char>, axes: Seq<i64>) -> Option<Seq<i64>> {
        match self.resolved_input(input) {
            Some(sd) => if axes.len() == 0 {
                Some(spec_squeeze_all(sd, sd.len() as int))
            } else if squeeze_axes_ok(sd, axes) {
                Some(spec_squeeze_axes(sd, axes, sd.len() as int))
            } else {
                None
            },
            None => None,
        }
    }

    /// Shape rule for squeeze: with an empty axis list every extent
    /// equal to 1 is dropped; otherwise each named axis must have
    /// extent 1 and is dropped, all other extents passing through.
    #[verifier::loop_isolation(false)]
    pub fn infer_squeeze(&self, input: &str, axes: &[i64]) -> (r: Option<TensorShape>)
        requires
            self.wf(),
        ensures
            match r {
                Some(t) => self.squeeze_result(input@, axes@) is Some && t@ == known_dims(
                    self.squeeze_result(input@, axes@).unwrap(),
                ),
                None => self.squeeze_result(input@, axes@) is None,
            },
    {
        let shape = match self.get_shape(input) {
            Some(s) => s,
            None => {
                return None;
            },
        };
        let static_shape = match shape.to_static(&self.overrides) {
            Some(v) => v,
            None => {
                return None;
            },
        };

        let rank = static_shape.len();
        let mut result: Vec<i64> = Vec::new();

        if axes.len() == 0 {
            let mut i: usize = 0;
            while i < rank
                invariant
                    i <= rank,
                    rank == static_shape@.len(),
                    result@ =~= spec_squeeze_all(static_shape@, i as int),
                decreases rank - i,
            {
                let dim = static_shape[i];
                if dim != 1 {
                    result.push(dim);
                }
                i = i + 1;
            }
        } else {
            let mut i: usize = 0;
            while i < rank
                invariant
                    i <= rank,
                    rank == static_shape@.len(),
                    rank <= i64::MAX,
                    result@ =~= spec_squeeze_axes(static_shape@, axes@, i as int),
                    forall|j: int|
                        0 <= j < i && #[trigger] axis_match(axes@, j, static_shape@.len() as int)
                            ==> static_shape@[j] == 1,
                decreases rank - i,
            {
                let i_signed = i as i64;
                let should_squeeze = contains_i64(axes, i_signed) || contains_i64(
                    axes,
                    i_signed - rank as i64,
                );
                proof {
                    assert(should_squeeze == axis_match(
                        axes@,
                        i as int,
                        static_shape@.len() as int,
                    ));
                }
                let dim = static_shape[i];
                if !should_squeeze {
                    result.push(dim);
                } else if dim != 1 {
                    proof {
                        assert(static_shape@[i as int] != 1);
                        assert(!squeeze_axes_ok(static_shape@, axes@));
                        assert(self.resolved_input(input@) == Some(static_shape@));
                    }
                    return None;
                }
                i = i + 1;
            }
        }

        Some(TensorShape::from_static(result))
    }

    /// The concatenation result folded over the inputs from position
    /// `i` on, starting from the running result `acc`.
    pub open spec fn concat_fold(
        &self,
        names: Seq<Seq<char>>,
        i: int,
        acc: Seq<i64>,
        axis: int,
    ) -> Option<Seq<i64>>
        decreases names.len() - i,
    {
        if i >= names.len() {
            Some(acc)
        } else {
            match self.resolved_input(names[i]) {
                None => None,
                Some(s) => match concat_pair(acc, s, axis) {
                    None => None,
                    Some(acc2) => self.concat_fold(names, i + 1, acc2, axis),
                },
            }
        }
    }

    /// Shape rule for concatenation, as a function of the context: the
    /// axis is normalised against the first input's rank, every input
    /// must share that rank and every off-axis extent, and the axis
    /// extents add up.
    pub open spec fn concat_result(&self, names: Seq<Seq<char>>, axis: i64) -> Option<Seq<i64>> {
        if names.len() == 0 {
            None
        } else {
            match self.resolved_input(names[0]) {
                None => None,
                Some(first) => {
                    let ax = norm_axis(axis, first.len() as int);
                    if 0 <= ax < first.len() {
                        self.concat_fold(names, 1, first, ax)
                    } else {
                        None
                    }
                },
            }
        }
    }

    /// Shape rule for concatenation: the result is the first input's
    /// shape with the concatenation axis extent replaced by the sum of
    /// every input's extent on that axis; all other extents must match.
    #[verifier::loop_isolation(false)]
    pub fn infer_concat(&self, inputs: &[&str], axis: i64) -> (r: Option<TensorShape>)
        requires
            self.wf(),
        ensures
            match r {
                Some(t) => {
                    let names = inputs@.map_values(|s: &str| s@);
                    self.concat_result(names, axis) is Some && t@ == known_dims(
                        self.concat_result(names, axis).unwrap(),
                    )
                },
                None => self.concat_result(inputs@.map_values(|s: &str| s@), axis) is None,
            },
    {
        let ghost names = inputs@.map_values(|s: &str| s@);

        if inputs.len() == 0 {
            return None;
        }

        let first_shape = match self.get_shape(inputs[0]) {
            Some(s) => s,
            None => {
                return None;
            },
        };
        let mut result = match first_shape.to_static(&self.overrides) {
            Some(v) => v,
            None => {
                return None;
            },
        };

        let rank_i = result.len() as i64;
        let normalized_axis: i64 = if axis < 0 {
            axis + rank_i
        } else {
            axis
        };

        if normalized_axis < 0 || normalized_axis >= rank_i {
            return None;
        }

        let axis_idx = normalized_axis as usize;
        let ghost first = result@;
        let ghost ax: int = axis_idx as int;

        let mut t: usize = 1;
        while t < inputs.len()
            invariant
                1 <= t <= inputs@.len(),
                result@.len() == first.len(),
                self.concat_fold(names, 1, first, ax) == self.concat_fold(
                    names,
                    t as int,
                    result@,
                    ax,
                ),
            decreases inputs.len() - t,
        {
            let shape = match self.get_shape(inputs[t]) {
                Some(s) => s,
                None => {
                    proof {
                        assert(names[t as int] == inputs@[t as int]@);
                    }
                    return None;
                },
            };
            let static_shape = match shape.to_static(&self.overrides) {
                Some(v) => v,
                None => {
                    proof {
                        assert(names[t as int] == inputs@[t as int]@);
                    }
                    return None;
                },
            };

            proof {
                assert(names[t as int] == inputs@[t as int]@);
                assert(self.resolved_input(names[t as int]) == Some(static_shape@));
            }

            if static_shape.len() != result.len() {
                return None;
            }

            let mut acc: Vec<i64> = Vec::new();
            let mut i: usize = 0;
            while i < result.len()
                invariant
                    i <= result@.len(),
                    static_shape@.len() == result@.len(),
                    ax < result@.len(),
                    acc@.len() == i,
                    forall|k: int| 0 <= k < i && k != ax ==> result@[k] == static_shape@[k],
                    i > ax ==> i64::MIN <= result@[ax] + static_shape@[ax] <= i64::MAX,
                    forall|k: int|
                        0 <= k < i ==> #[trigger] acc@[k] == if k == ax {
                            (result@[ax] + static_shape@[ax]) as i64
                        } else {
                            result@[k]
                        },
                decreases result.len() - i,
            {
                if i == axis_idx {
                    match result[i].checked_add(static_shape[i]) {
                        Some(sum) => {
                            acc.push(sum);
                        },
                        None => {
                            proof {
                                assert(concat_pair(result@, static_shape@, ax) is None);
                            }
                            return None;
                        },
                    }
                } else {
                    if result[i] != static_shape[i] {
                        proof {
                            assert(result@[i as int] != static_shape@[i as int]);
                            assert(concat_pair(result@, static_shape@, ax) is None);
                        }
                        return None;
                    }
                    acc.push(result[i]);
                }
                i = i + 1;
            }

            proof {
                assert(acc@ =~= result@.update(ax, (result@[ax] + static_shape@[ax]) as i64));
                assert(concat_pair(result@, static_shape@, ax) == Some(acc@));
            }
            result = acc;
            t = t + 1;
        }

        Some(TensorShape::from_static(result))
    }

    /// Shape rule for unsqueeze, as a function of the context.
    pub open spec fn unsqueeze_result(&self, input: Seq<char>, axes: Seq<i64>) -> Option<
        Seq<DimView>,
    > {
        if self.shapes().contains_key(input) {
            spec_unsqueeze(self.shapes()[input], axes)
        } else {
            None
        }
    }

    /// Shape rule for unsqueeze: bound extent-1 dimensions are
    /// inserted at the axis positions, counted in the output rank
    /// (negative axes count from its end); the input's dimensions fill
    /// the remaining positions in order, copied without resolving.  An
    /// out-of-range or repeated normalised axis yields no result.
    #[verifier::loop_isolation(false)]
    pub fn infer_unsqueeze(&self, input: &str, axes: &[i64]) -> (r: Option<TensorShape>)
        ensures
            match r {
                Some(t) => self.unsqueeze_result(input@, axes@) is Some && t@
                    == self.unsqueeze_result(input@, axes@).unwrap(),
                None => self.unsqueeze_result(input@, axes@) is None,
            },
    {
        let shape = match self.get_shape(input) {
            Some(s) => s,
            None => {
                return None;
            },
        };

        let len = shape.dims.len();
        let new_rank = match len.checked_add(axes.len()) {
            Some(nr) => nr,
            None => {
                return None;
            },
        };
        if new_rank as u64 > i64::MAX as u64 {
            return None;
        }
        let nr_i = new_rank as i64;
        let ghost nr: int = new_rank as int;

        let mut normalized: Vec<usize> = Vec::new();
        let mut a: usize = 0;
        while a < axes.len()
            invariant
                a <= axes@.len(),
                normalized@.len() == a,
                forall|j: int| 0 <= j < a ==> normalized@[j] as int == #[trigger] norm_axis(
                    axes@[j],
                    nr,
                ),
                forall|j: int| 0 <= j < a ==> 0 <= #[trigger] norm_axis(axes@[j], nr) < nr,
                forall|i: int, j: int|
                    0 <= i < j < a ==> norm_axis(axes@[i], nr) != norm_axis(axes@[j], nr),
            decreases axes.len() - a,
        {
            let ax = axes[a];
            let norm: i64 = if ax < 0 {
                ax + nr_i
            } else {
                ax
            };
            if norm < 0 || norm >= nr_i {
                proof {
                    assert(!(0 <= norm_axis(axes@[a as int], nr) < nr));
                    assert(!unsqueeze_axes_in_range(axes@, nr));
                }
                return None;
            }
            let norm_u = norm as usize;
            if contains_usize(&normalized, norm_u) {
                proof {
                    let j = choose|j: int| 0 <= j < normalized@.len() && normalized@[j] == norm_u;
                    assert(norm_axis(axes@[j], nr) == norm_axis(axes@[a as int], nr));
                    assert(!unsqueeze_axes_distinct(axes@, nr));
                }
                return None;
            }
            proof {
                assert(norm_axis(axes@[a as int], nr) == norm_u as int);
                assert forall|i2: int| 0 <= i2 < a implies norm_axis(axes@[i2], nr) != norm_axis(
                    axes@[a as int],
                    nr,
                ) by {
                    if normalized@[i2] == norm_u {
                        assert(normalized@.contains(norm_u));
                    }
                }
            }
            normalized.push(norm_u);
            a = a + 1;
        }

        proof {
            assert(unsqueeze_axes_in_range(axes@, nr));
            assert(unsqueeze_axes_distinct(axes@, nr));
            lemma_marks_total(axes@, nr);
        }

        let mut result: Vec<Dim> = Vec::new();
        let mut input_idx: usize = 0;
        let mut p: usize = 0;
        while p < new_rank
            invariant
                p <= new_rank,
                input_idx == p - marks_below(axes@, nr, p as int),
                result@.len() == p,
                forall|k: int|
                    0 <= k < p ==> (#[trigger] result@[k])@ == if unsqueeze_marks(axes@, nr, k) {
                        DimView::Known(1)
                    } else {
                        shape@[k - marks_below(axes@, nr, k)]
                    },
            decreases new_rank - p,
        {
            let marked = contains_usize(&normalized, p);
            proof {
                if marked {
                    let j = choose|j: int| 0 <= j < normalized@.len() && normalized@[j] == p;
                    assert(norm_axis(axes@[j], nr) == p as int);
                    assert(unsqueeze_marks(axes@, nr, p as int));
                } else if unsqueeze_marks(axes@, nr, p as int) {
                    let i = choose|i: int|
                        0 <= i < axes@.len() && norm_axis(axes@[i], nr) == p as int;
                    assert(normalized@[i] == norm_axis(axes@[i], nr));
                    assert(normalized@.contains(p));
                    assert(false);
                }
                assert(marks_below(axes@, nr, p + 1) == marks_below(axes@, nr, p as int)
                    + if unsqueeze_marks(axes@, nr, p as int) {
                    1nat
                } else {
                    0nat
                });
            }
            if marked {
                result.push(Dim::Known(1));
            } else {
                proof {
                    lemma_marks_below_mono(axes@, nr, p + 1, nr);
                    assert(input_idx < len);
                    assert(shape@[input_idx as int] == shape.dims@[input_idx as int]@);
                }
                result.push(shape.dims[input_idx].clone());
                input_idx = input_idx + 1;
            }
            p = p + 1;
        }

        let t = TensorShape::new(result);
        proof {
            assert(t@ =~= spec_unsqueeze(shape@, axes@).unwrap());
        }
        Some(t)
    }

    /// Shape rule for unary elementwise operators: the output shape is
    /// the input shape, dimensions copied without resolving.
    pub fn infer_unary_op(&self, input: &str) -> (r: Option<TensorShape>)
        ensures
            match r {
                Some(t) => self.shapes().contains_key(input@) && t@ == self.shapes()[input@],
                None => !self.shapes().contains_key(input@),
            },
    {
        match self.get_shape(input) {
            Some(s) => Some(s.clone()),
            None => None,
        }
    }
}

impl Default for ShapeInferenceContext {
    fn default() -> (r: Self)
        ensures
            r.shapes() == Map::<Seq<char>, Seq<DimView>>::empty(),
            r.bindings() == Map::<Seq<char>, u32>::empty(),
            r.wf(),
    {
        ShapeInferenceContext::new()
    }
}

/// Broadcasting is commutative: the two orders agree on compatibility
/// and, when compatible, on the resulting shape.
pub proof fn lemma_broadcast_commutative(a: Seq<i64>, b: Seq<i64>)
    ensures
        broadcast_compatible(a, b) == broadcast_compatible(b, a),
        broadcast_compatible(a, b) ==> broadcast_seq(a, b) =~= broadcast_seq(b, a),
{
    let n = broadcast_rank(a, b);
    assert(broadcast_rank(b, a) == n);
    assert forall|i: int|
        #![trigger broadcast_at(a, b, i)]
        #![trigger broadcast_at(b, a, i)]
        0 <= i < n implies broadcast_at(a, b, i) == broadcast_at(b, a, i) by {
        let x = padded_dim(a, n, i);
        let y = padded_dim(b, n, i);
        assert(broadcast_dim(x, y) == broadcast_dim(y, x));
    }
    if broadcast_compatible(a, b) {
        assert(broadcast_compatible(b, a));
    }
    if broadcast_compatible(b, a) {
        assert(broadcast_compatible(a, b));
    }
}

/// Broadcasting a concrete shape with itself, or with the empty
/// (scalar) shape, yields the shape unchanged.
pub proof fn lemma_broadcast_identity(a: Seq<i64>)
    ensures
        broadcast_compatible(a, a),
        broadcast_seq(a, a) =~= a,
        broadcast_compatible(a, Seq::<i64>::empty()),
        broadcast_seq(a, Seq::<i64>::empty()) =~= a,
{
    let n = a.len() as int;
    assert(broadcast_rank(a, a) == n);
    assert(broadcast_rank(a, Seq::<i64>::empty()) == n);
    assert forall|i: int| 0 <= i < n implies (#[trigger] broadcast_at(a, a, i)) is Some
        && broadcast_at(a, a, i) == Some(a[i]) && (#[trigger] broadcast_at(
        a,
        Seq::<i64>::empty(),
        i,
    )) is Some && broadcast_at(a, Seq::<i64>::empty(), i) == Some(a[i]) by {
        assert(padded_dim(a, n, i) == a[i]);
        assert(padded_dim(Seq::<i64>::empty(), n, i) == 1i64);
    }
    assert(broadcast_seq(a, a) =~= a);
    assert(broadcast_seq(a, Seq::<i64>::empty()) =~= a);
}

proof fn lemma_axis_match_is_mark(dims: Seq<i64>, axes: Seq<i64>, p: int)
    requires
        dims.len() <= i64::MAX,
        0 <= p < dims.len(),
        forall|i: int| 0 <= i < axes.len() ==> 0 <= #[trigger] axes[i] < dims.len(),
    ensures
        axis_match(axes, p, dims.len() as int) == unsqueeze_marks(axes, dims.len() as int, p),
{
    let rank = dims.len() as int;
    if axes.contains(p as i64) {
        let i = choose|i: int| 0 <= i < axes.len() && axes[i] == p as i64;
        assert(norm_axis(axes[i], rank) == p);
        assert(unsqueeze_marks(axes, rank, p));
    }
    if unsqueeze_marks(axes, rank, p) {
        let i = choose|i: int| 0 <= i < axes.len() && #[trigger] norm_axis(axes[i], rank) == p;
        assert(axes[i] == p as i64);
        assert(axes.contains(p as i64));
    }
    assert forall|i: int| 0 <= i < axes.len() implies axes[i] != ((p - rank) as i64) by {
        assert(axes[i] >= 0);
        assert(p - rank < 0);
    }
    if axes.contains((p - rank) as i64) {
        let i = choose|i: int| 0 <= i < axes.len() && axes[i] == ((p - rank) as i64);
        assert(false);
    }
}

proof fn lemma_squeeze_prefix_len(dims: Seq<i64>, axes: Seq<i64>, i: int)
    requires
        dims.len() <= i64::MAX,
        0 <= i <= dims.len(),
        forall|k: int| 0 <= k < axes.len() ==> 0 <= #[trigger] axes[k] < dims.len(),
    ensures
        spec_squeeze_axes(dims, axes, i).len() == i - marks_below(axes, dims.len() as int, i),
    decreases i,
{
    if i > 0 {
        lemma_squeeze_prefix_len(dims, axes, i - 1);
        lemma_axis_match_is_mark(dims, axes, i - 1);
    }
}

proof fn lemma_squeeze_prefix_at(dims: Seq<i64>, axes: Seq<i64>, i: int, p: int)
    requires
        dims.len() <= i64::MAX,
        0 <= p < i <= dims.len(),
        forall|k: int| 0 <= k < axes.len() ==> 0 <= #[trigger] axes[k] < dims.len(),
        !unsqueeze_marks(axes, dims.len() as int, p),
    ensures
        spec_squeeze_axes(dims, axes, i)[p - marks_below(axes, dims.len() as int, p)] == dims[p],
    decreases i,
{
    let rank = dims.len() as int;
    lemma_squeeze_prefix_len(dims, axes, i - 1);
    lemma_axis_match_is_mark(dims, axes, i - 1);
    assert(marks_below(axes, rank, p + 1) == marks_below(axes, rank, p));
    lemma_marks_below_mono(axes, rank, 0, p);
    if p < i - 1 {
        lemma_marks_below_mono(axes, rank, p + 1, i - 1);
        let prev = spec_squeeze_axes(dims, axes, i - 1);
        let idx = p - marks_below(axes, rank, p);
        assert(0 <= idx < prev.len());
        lemma_squeeze_prefix_at(dims, axes, i - 1, p);
        if axis_match(axes, i - 1, rank) {
            assert(spec_squeeze_axes(dims, axes, i) == prev);
        } else {
            assert(spec_squeeze_axes(dims, axes, i) == prev.push(dims[i - 1]));
            assert(prev.push(dims[i - 1])[idx] == prev[idx]);
        }
    } else {
        assert(p == i - 1);
        assert(!axis_match(axes, p, rank));
        assert(spec_squeeze_axes(dims, axes, i) == spec_squeeze_axes(dims, axes, i - 1).push(
            dims[i - 1],
        ));
        assert(p - marks_below(axes, rank, p) == spec_squeeze_axes(dims, axes, i - 1).len());
    }
}

/// Unsqueezing a squeezed shape restores it: if every axis in the
/// list, given in normalised (non-negative, in-range) form without
/// repetition, names a position of extent exactly 1, then squeezing
/// those axes away and unsqueezing at the same axes reproduces the
/// original shape.
pub proof fn lemma_squeeze_unsqueeze_round_trip(dims: Seq<i64>, axes: Seq<i64>)
    requires
        dims.len() <= i64::MAX,
        dims.len() <= usize::MAX,
        forall|i: int| 0 <= i < axes.len() ==> 0 <= #[trigger] axes[i] < dims.len(),
        forall|i: int, j: int| 0 <= i < j < axes.len() ==> axes[i] != axes[j],
        forall|i: int| 0 <= i < axes.len() ==> dims[#[trigger] axes[i] as int] == 1,
    ensures
        squeeze_axes_ok(dims, axes),
        spec_unsqueeze(known_dims(spec_squeeze_axes(dims, axes, dims.len() as int)), axes)
            == Some(known_dims(dims)),
{
    let rank = dims.len() as int;
    let squeezed = known_dims(spec_squeeze_axes(dims, axes, rank));

    assert forall|p: int|
        0 <= p < dims.len() && #[trigger] axis_match(axes, p, rank) implies dims[p] == 1 by {
        lemma_axis_match_is_mark(dims, axes, p);
        let i = choose|i: int| 0 <= i < axes.len() && #[trigger] norm_axis(axes[i], rank) == p;
        assert(axes[i] == p as i64);
        assert(dims[axes[i] as int] == 1);
    }
    assert(squeeze_axes_ok(dims, axes));

    assert forall|i: int| 0 <= i < axes.len() implies 0 <= #[trigger] norm_axis(axes[i], rank)
        < rank by {
        assert(0 <= axes[i] < dims.len());
    }
    assert(unsqueeze_axes_in_range(axes, rank));
    assert forall|i: int, j: int| 0 <= i < j < axes.len() implies norm_axis(axes[i], rank)
        != norm_axis(axes[j], rank) by {
        assert(axes[i] != axes[j]);
    }
    assert(unsqueeze_axes_distinct(axes, rank));

    lemma_squeeze_prefix_len(dims, axes, rank);
    lemma_marks_total(axes, rank);
    assert(squeezed.len() + axes.len() == rank);

    let out = spec_unsqueeze(squeezed, axes);
    assert(out is Some);
    let result = out.unwrap();
    assert forall|p: int| 0 <= p < rank implies result[p] == known_dims(dims)[p] by {
        if unsqueeze_marks(axes, rank, p) {
            lemma_axis_match_is_mark(dims, axes, p);
            assert(dims[p] == 1);
        } else {
            lemma_marks_below_mono(axes, rank, 0, p);
            let idx = p - marks_below(axes, rank, p);
            assert(marks_below(axes, rank, p + 1) == marks_below(axes, rank, p));
            lemma_marks_below_mono(axes, rank, p + 1, rank);
            assert(0 <= idx < squeezed.len());
            lemma_squeeze_prefix_at(dims, axes, rank, p);
            assert(squeezed[idx] == DimView::Known(spec_squeeze_axes(dims, axes, rank)[idx]));
        }
    }
    assert(result =~= known_dims(dims));
}

} // verus!
