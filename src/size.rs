//! Padded byte sizes of translated types.
use crate::model::{ScalarType, VariableReflectionType};
use vstd::prelude::*;

verus! {

/// Byte width of a scalar kind.
pub open spec fn scalar_width(k: ScalarType) -> nat {
    match k {
        ScalarType::Int8 | ScalarType::Uint8 => 1,
        ScalarType::Int16 | ScalarType::Uint16 | ScalarType::Float16 => 2,
        ScalarType::Int32 | ScalarType::Uint32 | ScalarType::Float32 => 4,
        ScalarType::Int64 | ScalarType::Uint64 | ScalarType::Float64 => 8,
    }
}

/// The first power of two reached from `p` by doubling that is at least `n`.
pub open spec fn pow2_from(n: nat, p: nat) -> nat
    decreases (if p >= n { 0 } else { n - p }),
    when p >= 1
{
    if p >= n {
        p
    } else {
        pow2_from(n, 2 * p)
    }
}

/// The smallest power of two that is at least `n` (1 for 0 and 1).
pub open spec fn pow2_ceil(n: nat) -> nat {
    pow2_from(n, 1)
}

/// One step of the struct layout fold: round `offset` up to a multiple of the
/// field size `s`, then add `s`. A zero-sized field leaves the offset alone.
pub open spec fn align_step(offset: nat, s: nat) -> nat {
    if s == 0 {
        offset
    } else {
        (((offset + s - 1) / (s as int)) * s + s) as nat
    }
}

/// Number of fields of a struct node (0 for any other node).
pub open spec fn prop_count(t: VariableReflectionType) -> nat {
    match t {
        VariableReflectionType::Struct { props, .. } => props.len() as nat,
        _ => 0,
    }
}

/// Padded byte size of a translated type.
pub open spec fn size_of(t: VariableReflectionType) -> nat
    decreases t, prop_count(t) + 1,
{
    match t {
        VariableReflectionType::Scalar(k) => scalar_width(k),
        VariableReflectionType::Vector(k, c) => pow2_ceil(c as nat) * scalar_width(k),
        VariableReflectionType::Array(e, c) => size_of(*e) * (c as nat),
        VariableReflectionType::Struct { .. } => fields_size(t, prop_count(t)),
    }
}

/// The layout fold over the first `n` fields of a struct node.
pub open spec fn fields_size(t: VariableReflectionType, n: nat) -> nat
    decreases t, n,
{
    match t {
        VariableReflectionType::Struct { props, .. } => {
            if n == 0 || n > props.len() {
                0
            } else {
                align_step(fields_size(t, (n - 1) as nat), size_of(props[n - 1].1))
            }
        },
        _ => 0,
    }
}

/// Every size met while computing the size of `t` fits in a `u32`.
pub open spec fn size_fits(t: VariableReflectionType) -> bool
    decreases t, prop_count(t) + 1,
{
    &&& size_of(t) <= u32::MAX
    &&& match t {
        VariableReflectionType::Array(e, _) => size_fits(*e),
        VariableReflectionType::Struct { .. } => fields_fit(t, prop_count(t)),
        _ => true,
    }
}

/// The first `n` fields of a struct node satisfy `size_fits`.
pub open spec fn fields_fit(t: VariableReflectionType, n: nat) -> bool
    decreases t, n,
{
    match t {
        VariableReflectionType::Struct { props, .. } => {
            n == 0 || (n <= props.len() && fields_fit(t, (n - 1) as nat) && size_fits(
                props[n - 1].1,
            ))
        },
        _ => n == 0,
    }
}

proof fn lemma_pow2_from_ge(n: nat, p: nat)
    requires
        p >= 1,
    ensures
        pow2_from(n, p) >= p,
        pow2_from(n, p) >= n,
    decreases (if p >= n { 0 } else { n - p }),
{
    if p < n {
        lemma_pow2_from_ge(n, 2 * p);
    }
}

proof fn lemma_align_step_ge(offset: nat, s: nat)
    ensures
        align_step(offset, s) >= offset + s,
{
    if s > 0 {
        let x = (offset + s - 1) as int;
        let q = x / (s as int);
        vstd::arithmetic::div_mod::lemma_fundamental_div_mod(x, s as int);
        assert(q * s >= offset) by (nonlinear_arith)
            requires
                x == s * q + x % (s as int),
                x % (s as int) < s,
                x == offset + s - 1,
        ;
    }
}

proof fn lemma_fields_size_mono(t: VariableReflectionType, i: nat, j: nat)
    requires
        i <= j <= prop_count(t),
    ensures
        fields_size(t, i) <= fields_size(t, j),
    decreases j,
{
    if i < j {
        lemma_fields_size_mono(t, i, (j - 1) as nat);
        if let VariableReflectionType::Struct { props, .. } = t {
            lemma_align_step_ge(fields_size(t, (j - 1) as nat), size_of(props[j - 1].1));
        }
    }
}

proof fn lemma_fields_fit(t: VariableReflectionType, n: nat, k: nat)
    requires
        fields_fit(t, n),
        k < n,
    ensures
        t is Struct,
        k < prop_count(t),
        size_fits(t->props[k as int].1),
    decreases n,
{
    if k + 1 < n {
        lemma_fields_fit(t, (n - 1) as nat, k);
    }
}

/// The layout fold over a sequence of field sizes, starting at offset 0.
pub open spec fn aligned_fold(sizes: Seq<nat>) -> nat
    decreases sizes.len(),
{
    if sizes.len() == 0 {
        0
    } else {
        align_step(aligned_fold(sizes.drop_last()), sizes.last())
    }
}

/// The sizes of the fields of a struct node, in declaration order.
pub open spec fn field_sizes(t: VariableReflectionType) -> Seq<nat> {
    match t {
        VariableReflectionType::Struct { props, .. } => Seq::new(
            props.len() as nat,
            |i: int| size_of(props[i].1),
        ),
        _ => Seq::empty(),
    }
}

/// The size of a struct is the fold over its field sizes `s1..sn` that
/// rounds the running offset up to a multiple of each `si` and then adds
/// `si`, starting at 0; a zero-sized field leaves the offset unchanged.
pub proof fn struct_size_is_aligned_fold(t: VariableReflectionType)
    requires
        t is Struct,
    ensures
        size_of(t) == aligned_fold(field_sizes(t)),
        forall|offset: nat| #[trigger] align_step(offset, 0) == offset,
{
    let sizes = field_sizes(t);
    let n = prop_count(t);
    lemma_fields_size_prefix(t, n);
    assert(sizes.take(n as int) == sizes);
}

proof fn lemma_fields_size_prefix(t: VariableReflectionType, k: nat)
    requires
        t is Struct,
        k <= prop_count(t),
    ensures
        fields_size(t, k) == aligned_fold(field_sizes(t).take(k as int)),
    decreases k,
{
    let sizes = field_sizes(t);
    if k > 0 {
        lemma_fields_size_prefix(t, (k - 1) as nat);
        assert(sizes.take(k as int).drop_last() == sizes.take(k - 1));
    } else {
        assert(sizes.take(0) == Seq::<nat>::empty());
    }
}

/// A three-component vector takes the storage of a four-component one.
pub proof fn vector_three_pads_to_four(k: ScalarType)
    ensures
        size_of(VariableReflectionType::Vector(k, 3)) == size_of(
            VariableReflectionType::Vector(k, 4),
        ),
        size_of(VariableReflectionType::Vector(k, 4)) == 4 * scalar_width(k),
{
    assert(pow2_from(3, 4) == 4);
    assert(pow2_from(3, 2) == 4);
    assert(pow2_from(4, 4) == 4);
    assert(pow2_from(4, 2) == 4);
}

fn get_scalar_size(scalar_type: &ScalarType) -> (r: u32)
    ensures
        r == scalar_width(*scalar_type),
{
    match scalar_type {
        ScalarType::Int8 | ScalarType::Uint8 => 1,
        ScalarType::Int16 | ScalarType::Uint16 | ScalarType::Float16 => 2,
        ScalarType::Int32 | ScalarType::Uint32 | ScalarType::Float32 => 4,
        ScalarType::Int64 | ScalarType::Uint64 | ScalarType::Float64 => 8,
    }
}

/// The smallest power of two that is at least `n`.
fn next_power_of_two(n: usize) -> (r: usize)
    requires
        pow2_ceil(n as nat) <= u32::MAX,
    ensures
        r == pow2_ceil(n as nat),
{
    let mut p: usize = 1;
    while p < n
        invariant
            p >= 1,
            pow2_from(n as nat, p as nat) == pow2_ceil(n as nat),
            pow2_ceil(n as nat) <= u32::MAX,
        decreases (if p >= n { 0 } else { n - p }),
    {
        proof {
            lemma_pow2_from_ge(n as nat, 2 * p as nat);
        }
        p = p * 2;
    }
    p
}

impl VariableReflectionType {
    /// Padded byte size of this type: scalars by their width, vectors with
    /// their component count rounded up to a power of two, arrays as element
    /// size times count, structs by the self-aligning layout fold.
    pub fn get_size(&self) -> (r: u32)
        requires
            size_fits(*self),
        ensures
            r == size_of(*self),
        decreases self,
    {
        match self {
            VariableReflectionType::Scalar(k) => get_scalar_size(k),
            VariableReflectionType::Vector(k, count) => {
                let w = get_scalar_size(k);
                proof {
                    lemma_pow2_from_ge(*count as nat, 1);
                }
                let p = next_power_of_two(*count);
                assert(p * w <= u32::MAX);
                assert(p <= u32::MAX) by (nonlinear_arith)
                    requires
                        p * w <= u32::MAX,
                        w >= 1,
                ;
                (p as u32) * w
            },
            VariableReflectionType::Array(e, count) => {
                let s = e.get_size();
                if s == 0 {
                    assert(size_of(**e) * (*count as nat) == 0) by (nonlinear_arith)
                        requires
                            size_of(**e) == 0,
                    ;
                    0
                } else {
                    assert(*count <= u32::MAX) by (nonlinear_arith)
                        requires
                            s * *count <= u32::MAX,
                            s >= 1,
                    ;
                    s * (*count as u32)
                }
            },
            VariableReflectionType::Struct { props, .. } => {
                let mut acc: u32 = 0;
                let mut i: usize = 0;
                while i < props.len()
                    invariant
                        0 <= i <= props.len(),
                        *self matches VariableReflectionType::Struct { props: ps, .. } && ps
                            == props,
                        acc == fields_size(*self, i as nat),
                        size_fits(*self),
                    decreases props.len() - i,
                {
                    proof {
                        lemma_fields_fit(*self, props.len() as nat, i as nat);
                        lemma_fields_size_mono(*self, (i + 1) as nat, props.len() as nat);
                    }
                    let f = props[i].1.get_size();
                    proof {
                        lemma_align_step_ge(acc as nat, f as nat);
                    }
                    if f != 0 {
                        let q = (acc + f - 1) / f;
                        acc = q * f + f;
                    }
                    i = i + 1;
                }
                acc
            },
        }
    }
}

} // verus!
