//! Hit attributes and shader-record data as a flat buffer of 32-bit words:
//! how many words they take, and which element goes at which word offset.
use crate::builtins::GlslType;
use crate::text::{decimal, push_decimal};
use vstd::prelude::*;

verus! {

/// A variable of packed data: its type, name and array dimensions.
#[derive(Clone, Debug)]
pub struct PackedVariable {
    pub ty: GlslType,
    pub name: String,
    pub dims: Option<Vec<u32>>,
}

/// Hit attributes or shader-record data: the fields of one block, or one
/// variable. A named block also has `(struct name, block identifier)`.
#[derive(Clone, Debug)]
pub struct PackedData {
    pub block_identifier: Option<(String, String)>,
    pub variables: Vec<PackedVariable>,
}

/// Why packed data could not be laid out.
#[derive(Clone, Copy, Debug, PartialEq, Eq, Structural)]
pub enum PackError {
    /// A variable's type has no packed form.
    UnsupportedType,
    /// The data does not fit in 2^32 words.
    TooLarge,
}

/// The element types that have pack and unpack helpers.
#[derive(Clone, Copy, Debug, PartialEq, Eq, Structural)]
pub enum PackKind {
    UInt,
    Float,
    Vec2,
    Vec3,
    Vec4,
    Mat4,
}

/// Words per element of a type, where the type can be counted.
pub open spec fn type_words(t: GlslType) -> Option<nat> {
    match t {
        GlslType::Bool | GlslType::Int | GlslType::UInt | GlslType::Float => Some(1),
        GlslType::IVec2 | GlslType::UVec2 | GlslType::Vec2 => Some(2),
        GlslType::IVec3 | GlslType::UVec3 | GlslType::Vec3 => Some(3),
        GlslType::IVec4 | GlslType::UVec4 | GlslType::Vec4 => Some(4),
        GlslType::Mat4 => Some(16),
        _ => None,
    }
}

pub open spec fn pack_kind(t: GlslType) -> Option<PackKind> {
    match t {
        GlslType::UInt => Some(PackKind::UInt),
        GlslType::Float => Some(PackKind::Float),
        GlslType::Vec2 => Some(PackKind::Vec2),
        GlslType::Vec3 => Some(PackKind::Vec3),
        GlslType::Vec4 => Some(PackKind::Vec4),
        GlslType::Mat4 => Some(PackKind::Mat4),
        _ => None,
    }
}

pub open spec fn kind_words(k: PackKind) -> nat {
    match k {
        PackKind::UInt | PackKind::Float => 1,
        PackKind::Vec2 => 2,
        PackKind::Vec3 => 3,
        PackKind::Vec4 => 4,
        PackKind::Mat4 => 16,
    }
}

/// The name of a kind in `PACK_<NAME>_INTO_...` and `UNPACK_<NAME>_FROM_...`.
pub open spec fn kind_helper_name(k: PackKind) -> Seq<char> {
    match k {
        PackKind::UInt => "UINT"@,
        PackKind::Float => "FLOAT"@,
        PackKind::Vec2 => "VEC2"@,
        PackKind::Vec3 => "VEC3"@,
        PackKind::Vec4 => "VEC4"@,
        PackKind::Mat4 => "MAT4"@,
    }
}

pub open spec fn dims_product(d: Seq<u32>) -> nat
    decreases d.len(),
{
    if d.len() == 0 {
        1
    } else {
        dims_product(d.drop_last()) * (d.last() as nat)
    }
}

pub open spec fn var_dims(v: PackedVariable) -> Seq<u32> {
    match v.dims {
        None => Seq::empty(),
        Some(d) => d@,
    }
}

/// Elements of a variable: one, or one per array element.
pub open spec fn var_count(v: PackedVariable) -> nat {
    dims_product(var_dims(v))
}

/// Words of a variable, if its type can be counted.
pub open spec fn var_words(v: PackedVariable) -> Option<nat> {
    match type_words(v.ty) {
        None => None,
        Some(w) => Some(w * var_count(v)),
    }
}

/// Words of all variables, if every type can be counted.
pub open spec fn data_words(vs: Seq<PackedVariable>) -> Option<nat>
    decreases vs.len(),
{
    if vs.len() == 0 {
        Some(0)
    } else {
        match (data_words(vs.drop_last()), var_words(vs.last())) {
            (Some(a), Some(b)) => Some(a + b),
            _ => None,
        }
    }
}

/// The element kinds in buffer order: variables in declaration order, array
/// elements in row-major order.
pub open spec fn data_kinds(vs: Seq<PackedVariable>) -> Seq<PackKind>
    decreases vs.len(),
{
    if vs.len() == 0 {
        Seq::empty()
    } else {
        let v = vs.last();
        data_kinds(vs.drop_last()) + Seq::new(var_count(v), |i: int| pack_kind(v.ty).unwrap())
    }
}

/// Every variable has a packed form.
pub open spec fn all_packable(vs: Seq<PackedVariable>) -> bool {
    forall|i: int| 0 <= i < vs.len() ==> (#[trigger] pack_kind(vs[i].ty)) is Some
}

/// Word offset of element `i`: the words of the elements before it.
pub open spec fn slot_offset(kinds: Seq<PackKind>, i: int) -> nat
    decreases i,
{
    if i <= 0 {
        0
    } else {
        slot_offset(kinds, i - 1) + kind_words(kinds[i - 1])
    }
}

/// One element to read from the buffer.
#[derive(Clone, Copy, Debug, PartialEq, Eq, Structural)]
pub struct UnpackSlot {
    pub kind: PackKind,
    pub word_offset: u32,
}

/// One element to write into the buffer, and the expression that names it.
#[derive(Clone, Debug)]
pub struct PackSlot {
    pub kind: PackKind,
    pub word_offset: u32,
    pub target: String,
}

/// The data can be laid out: packable types, and every offset in 32 bits.
pub open spec fn layout_ok(vs: Seq<PackedVariable>) -> bool {
    &&& all_packable(vs)
    &&& slot_offset(data_kinds(vs), data_kinds(vs).len() as int) <= u32::MAX
}

/// `s` is the unpacking order of `vs`.
pub open spec fn unpack_slots_ok(vs: Seq<PackedVariable>, s: Seq<UnpackSlot>) -> bool {
    let kinds = data_kinds(vs);
    &&& s.len() == kinds.len()
    &&& forall|i: int|
        0 <= i < s.len() ==> (#[trigger] s[i]).kind == kinds[i] && s[i].word_offset == slot_offset(
            kinds,
            i,
        )
}

/// `s` is the packing order of `vs`.
pub open spec fn pack_slots_ok(vs: Seq<PackedVariable>, s: Seq<PackSlot>) -> bool {
    let kinds = data_kinds(vs);
    &&& s.len() == kinds.len()
    &&& forall|i: int|
        0 <= i < s.len() ==> (#[trigger] s[i]).kind == kinds[i] && s[i].word_offset == slot_offset(
            kinds,
            i,
        )
}

pub proof fn lemma_slot_offset_monotone(kinds: Seq<PackKind>, i: int, j: int)
    requires
        0 <= i <= j,
    ensures
        slot_offset(kinds, i) <= slot_offset(kinds, j),
    decreases j - i,
{
    if i < j {
        lemma_slot_offset_monotone(kinds, i, j - 1);
    }
}

pub proof fn lemma_slot_offset_prefix(a: Seq<PackKind>, b: Seq<PackKind>, i: int)
    requires
        0 <= i <= a.len(),
    ensures
        slot_offset(a + b, i) == slot_offset(a, i),
    decreases i,
{
    if i > 0 {
        lemma_slot_offset_prefix(a, b, i - 1);
    }
}

/// The product of the dimensions, if it fits in 32 bits.
fn checked_dims_product(d: &Vec<u32>) -> (r: Option<u32>)
    ensures
        r matches Some(p) ==> p == dims_product(d@),
        r is None ==> dims_product(d@) > u32::MAX,
{
    let mut k: usize = 0;
    while k < d.len()
        invariant
            k <= d.len(),
            forall|j: int| 0 <= j < k ==> d@[j] != 0,
        decreases d.len() - k,
    {
        if d[k] == 0 {
            proof {
                lemma_product_zero(d@, k as int);
            }
            return Some(0);
        }
        k = k + 1;
    }
    let mut p: u64 = 1;
    let mut i: usize = 0;
    while i < d.len()
        invariant
            i <= d.len(),
            forall|j: int| 0 <= j < d.len() ==> d@[j] != 0,
            p == dims_product(d@.subrange(0, i as int)),
            p <= u32::MAX,
        decreases d.len() - i,
    {
        proof {
            assert(d@.subrange(0, i + 1).drop_last() =~= d@.subrange(0, i as int));
        }
        let x = d[i] as u64;
        assert(p * x <= 0xFFFF_FFFF * 0xFFFF_FFFFu64) by (nonlinear_arith)
            requires p <= 0xFFFF_FFFF, x <= 0xFFFF_FFFF;
        let q = p * x;
        if q > u32::MAX as u64 {
            proof {
                lemma_product_prefix_le(d@, i + 1);
            }
            return None;
        }
        p = q;
        i = i + 1;
    }
    assert(d@.subrange(0, d.len() as int) =~= d@);
    Some(p as u32)
}

proof fn lemma_product_zero(d: Seq<u32>, k: int)
    requires
        0 <= k < d.len(),
        d[k] == 0,
    ensures
        dims_product(d) == 0,
    decreases d.len(),
{
    let a = dims_product(d.drop_last());
    let x = d.last() as nat;
    if k < d.len() - 1 {
        assert(d.drop_last()[k] == d[k]);
        lemma_product_zero(d.drop_last(), k);
        assert(a * x == 0) by (nonlinear_arith)
            requires a == 0;
    } else {
        assert(a * x == 0) by (nonlinear_arith)
            requires x == 0;
    }
}

/// With no zero dimension, a prefix's product is at most the whole product.
proof fn lemma_product_prefix_le(d: Seq<u32>, i: int)
    requires
        0 <= i <= d.len(),
        forall|j: int| 0 <= j < d.len() ==> d[j] != 0,
    ensures
        dims_product(d.subrange(0, i)) <= dims_product(d),
    decreases d.len() - i,
{
    if i < d.len() {
        lemma_product_prefix_le(d, i + 1);
        assert(d.subrange(0, i + 1).drop_last() =~= d.subrange(0, i));
        let a = dims_product(d.subrange(0, i));
        let x = d[i] as nat;
        assert(a <= a * x) by (nonlinear_arith)
            requires x >= 1;
    } else {
        assert(d.subrange(0, i) =~= d);
    }
}

fn var_count_exec(v: &PackedVariable) -> (r: Option<u32>)
    ensures
        r matches Some(p) ==> p == var_count(*v),
        r is None ==> var_count(*v) > u32::MAX,
{
    match &v.dims {
        None => Some(1),
        Some(d) => checked_dims_product(d),
    }
}

fn type_words_exec(t: &GlslType) -> (r: Option<u32>)
    ensures
        r matches Some(w) ==> type_words(*t) == Some(w as nat),
        r is None ==> type_words(*t) is None,
{
    match t {
        GlslType::Bool | GlslType::Int | GlslType::UInt | GlslType::Float => Some(1),
        GlslType::IVec2 | GlslType::UVec2 | GlslType::Vec2 => Some(2),
        GlslType::IVec3 | GlslType::UVec3 | GlslType::Vec3 => Some(3),
        GlslType::IVec4 | GlslType::UVec4 | GlslType::Vec4 => Some(4),
        GlslType::Mat4 => Some(16),
        _ => None,
    }
}

fn pack_kind_exec(t: &GlslType) -> (r: Option<PackKind>)
    ensures
        r == pack_kind(*t),
{
    match t {
        GlslType::UInt => Some(PackKind::UInt),
        GlslType::Float => Some(PackKind::Float),
        GlslType::Vec2 => Some(PackKind::Vec2),
        GlslType::Vec3 => Some(PackKind::Vec3),
        GlslType::Vec4 => Some(PackKind::Vec4),
        GlslType::Mat4 => Some(PackKind::Mat4),
        _ => None,
    }
}

impl PackKind {
    pub fn words(&self) -> (r: u32)
        ensures
            r == kind_words(*self),
    {
        match self {
            PackKind::UInt | PackKind::Float => 1,
            PackKind::Vec2 => 2,
            PackKind::Vec3 => 3,
            PackKind::Vec4 => 4,
            PackKind::Mat4 => 16,
        }
    }

    /// The type's name in the pack and unpack helpers.
    pub fn helper_name(&self) -> (r: &'static str)
        ensures
            r@ == kind_helper_name(*self),
    {
        match self {
            PackKind::UInt => "UINT",
            PackKind::Float => "FLOAT",
            PackKind::Vec2 => "VEC2",
            PackKind::Vec3 => "VEC3",
            PackKind::Vec4 => "VEC4",
            PackKind::Mat4 => "MAT4",
        }
    }
}

impl PackedVariable {
    /// Words the variable takes; `Err` for a type that cannot be counted or a
    /// size past 32 bits.
    pub fn num_words(&self) -> (r: Result<u32, PackError>)
        ensures
            r matches Ok(w) ==> var_words(*self) == Some(w as nat),
            r == Err::<u32, PackError>(PackError::UnsupportedType) <==> type_words(self.ty) is None,
            r == Err::<u32, PackError>(PackError::TooLarge) <==> type_words(self.ty) is Some
                && var_words(*self).unwrap() > u32::MAX,
    {
        let w = match type_words_exec(&self.ty) {
            None => {
                return Err(PackError::UnsupportedType);
            },
            Some(w) => w,
        };
        let n = match var_count_exec(self) {
            None => {
                proof {
                    let c = var_count(*self);
                    assert(w * c >= c) by (nonlinear_arith)
                        requires w >= 1;
                }
                return Err(PackError::TooLarge);
            },
            Some(n) => n,
        };
        assert(w as u64 * n as u64 <= 16 * 0xFFFF_FFFFu64) by (nonlinear_arith)
            requires w <= 16, n <= 0xFFFF_FFFF;
        let total = w as u64 * n as u64;
        if total > u32::MAX as u64 {
            return Err(PackError::TooLarge);
        }
        Ok(total as u32)
    }
}

impl PackedData {
    /// Words of all variables together.
    pub fn total_num_words(&self) -> (r: Result<u32, PackError>)
        ensures
            r matches Ok(w) ==> data_words(self.variables@) == Some(w as nat),
            r is Err ==> data_words(self.variables@) is None || data_words(
                self.variables@,
            ).unwrap() > u32::MAX,
    {
        let mut total: u32 = 0;
        let mut i: usize = 0;
        while i < self.variables.len()
            invariant
                i <= self.variables.len(),
                data_words(self.variables@.subrange(0, i as int)) == Some(total as nat),
            decreases self.variables.len() - i,
        {
            proof {
                assert(self.variables@.subrange(0, i + 1).drop_last() =~= self.variables@.subrange(
                    0,
                    i as int,
                ));
            }
            let w = match self.variables[i].num_words() {
                Ok(w) => w,
                Err(e) => {
                    proof {
                        lemma_data_words_grows(self.variables@, i + 1);
                    }
                    return Err(e);
                },
            };
            if total as u64 + w as u64 > u32::MAX as u64 {
                proof {
                    lemma_data_words_grows(self.variables@, i + 1);
                }
                return Err(PackError::TooLarge);
            }
            total = total + w;
            i = i + 1;
        }
        assert(self.variables@.subrange(0, self.variables.len() as int) =~= self.variables@);
        Ok(total)
    }
}

/// Once a prefix is uncountable or too large, so is the whole.
proof fn lemma_data_words_grows(vs: Seq<PackedVariable>, i: int)
    requires
        0 <= i <= vs.len(),
    ensures
        data_words(vs.subrange(0, i)) is None ==> data_words(vs) is None,
        data_words(vs.subrange(0, i)) matches Some(a) ==> data_words(vs) is None || a <= data_words(
            vs,
        ).unwrap(),
    decreases vs.len() - i,
{
    if i < vs.len() {
        lemma_data_words_grows(vs, i + 1);
        assert(vs.subrange(0, i + 1).drop_last() =~= vs.subrange(0, i));
    } else {
        assert(vs.subrange(0, i) =~= vs);
    }
}

/// The array indices of element `k` of an array with dimensions `dims`, in
/// row-major order.
pub open spec fn index_tuple(dims: Seq<u32>, k: nat) -> Seq<u32>
    decreases dims.len(),
{
    if dims.len() == 0 {
        Seq::empty()
    } else {
        index_tuple(dims.drop_last(), k / (dims.last() as nat)).push(
            (k % (dims.last() as nat)) as u32,
        )
    }
}

/// `[i][j]...` for the indices `t`.
pub open spec fn index_text(t: Seq<u32>) -> Seq<char>
    decreases t.len(),
{
    if t.len() == 0 {
        Seq::empty()
    } else {
        index_text(t.drop_last()) + "["@ + decimal(t.last() as nat) + "]"@
    }
}

/// The expression naming element `k` of variable `v`.
pub open spec fn element_target(block_prefix: Seq<char>, v: PackedVariable, k: nat) -> Seq<char> {
    block_prefix + v.name@ + index_text(index_tuple(var_dims(v), k))
}

/// `block.` for a named block, else nothing.
pub open spec fn block_prefix(data: PackedData) -> Seq<char> {
    match data.block_identifier {
        None => Seq::empty(),
        Some((_, ident)) => ident@ + "."@,
    }
}

/// The variable and the element within it of buffer element `i`.
pub open spec fn element_of(vs: Seq<PackedVariable>, i: int) -> (int, nat)
    decreases vs.len(),
{
    if vs.len() == 0 {
        (0, 0)
    } else {
        let before = data_kinds(vs.drop_last()).len() as int;
        if i < before {
            element_of(vs.drop_last(), i)
        } else {
            (vs.len() - 1, (i - before) as nat)
        }
    }
}

/// `s` is the packing order of `data`, each element named as the shader
/// writes it.
pub open spec fn pack_targets_ok(data: PackedData, s: Seq<PackSlot>) -> bool {
    let vs = data.variables@;
    &&& pack_slots_ok(vs, s)
    &&& forall|i: int|
        0 <= i < s.len() ==> (#[trigger] s[i]).target@ == element_target(
            block_prefix(data),
            vs[element_of(vs, i).0],
            element_of(vs, i).1,
        )
}

proof fn lemma_slot_offset_agree(a: Seq<PackKind>, b: Seq<PackKind>, i: int)
    requires
        0 <= i <= a.len(),
        i <= b.len(),
        forall|j: int| 0 <= j < i ==> a[j] == b[j],
    ensures
        slot_offset(a, i) == slot_offset(b, i),
    decreases i,
{
    if i > 0 {
        lemma_slot_offset_agree(a, b, i - 1);
    }
}

proof fn lemma_slot_offset_ge_index(a: Seq<PackKind>, i: int)
    requires
        0 <= i,
    ensures
        slot_offset(a, i) >= i,
    decreases i,
{
    if i > 0 {
        lemma_slot_offset_ge_index(a, i - 1);
    }
}

/// The kinds of the first `j` variables begin the kinds of all of them, and
/// element `i` of those belongs to the same variable in both.
proof fn lemma_data_kinds_prefix(vs: Seq<PackedVariable>, j: int)
    requires
        0 <= j <= vs.len(),
    ensures
        data_kinds(vs.subrange(0, j)).len() <= data_kinds(vs).len(),
        data_kinds(vs).subrange(0, data_kinds(vs.subrange(0, j)).len() as int) == data_kinds(
            vs.subrange(0, j),
        ),
        forall|i: int|
            0 <= i < data_kinds(vs.subrange(0, j)).len() ==> element_of(vs, i) == element_of(
                vs.subrange(0, j),
                i,
            ),
    decreases vs.len() - j,
{
    if j == vs.len() {
        assert(vs.subrange(0, j) =~= vs);
        assert(data_kinds(vs).subrange(0, data_kinds(vs).len() as int) =~= data_kinds(vs));
    } else {
        lemma_data_kinds_prefix(vs, j + 1);
        let p = vs.subrange(0, j);
        let q = vs.subrange(0, j + 1);
        assert(q.drop_last() =~= p);
        let lp = data_kinds(p).len() as int;
        let lq = data_kinds(q).len() as int;
        assert(data_kinds(q).subrange(0, lp) =~= data_kinds(p));
        assert(data_kinds(vs).subrange(0, lp) =~= data_kinds(q).subrange(0, lp));
        assert forall|i: int| 0 <= i < lp implies element_of(vs, i) == element_of(p, i) by {
            assert(element_of(vs, i) == element_of(q, i));
        }
    }
}

/// Element `i` of the kinds of `vs` in terms of its variable.
proof fn lemma_element_of(vs: Seq<PackedVariable>, j: int, e: int)
    requires
        0 <= j < vs.len(),
        0 <= e < var_count(vs[j]),
    ensures
        ({
            let l = data_kinds(vs.subrange(0, j)).len() as int;
            &&& l + var_count(vs[j]) <= data_kinds(vs).len()
            &&& data_kinds(vs)[l + e] == pack_kind(vs[j].ty).unwrap()
            &&& element_of(vs, l + e) == (j, e as nat)
        }),
{
    lemma_data_kinds_prefix(vs, j + 1);
    let p = vs.subrange(0, j);
    let q = vs.subrange(0, j + 1);
    assert(q.drop_last() =~= p);
    assert(q.last() == vs[j]);
    let l = data_kinds(p).len() as int;
    assert(data_kinds(vs)[l + e] == data_kinds(q)[l + e]);
}

/// The indices of one element, computed from the first `n` dimensions.
fn push_index_tuple(dims: &Vec<u32>, n: usize, k: u32, out: &mut Vec<u32>)
    requires
        n <= dims.len(),
        forall|j: int| 0 <= j < dims.len() ==> dims@[j] != 0,
    ensures
        final(out)@ == old(out)@ + index_tuple(dims@.subrange(0, n as int), k as nat),
    decreases n,
{
    if n == 0 {
        assert(final(out)@ =~= old(out)@ + index_tuple(dims@.subrange(0, 0), k as nat));
        return;
    }
    let d = dims[n - 1];
    push_index_tuple(dims, n - 1, k / d, out);
    out.push(k % d);
    proof {
        let sub = dims@.subrange(0, n as int);
        assert(sub.drop_last() =~= dims@.subrange(0, n - 1));
        assert(sub.last() == d);
        assert(final(out)@ =~= old(out)@ + index_tuple(sub, k as nat));
    }
}

fn push_index_text(s: &mut String, t: &Vec<u32>)
    ensures
        final(s)@ == old(s)@ + index_text(t@),
{
    let mut i: usize = 0;
    let ghost start = s@;
    while i < t.len()
        invariant
            i <= t.len(),
            s@ == start + index_text(t@.subrange(0, i as int)),
        decreases t.len() - i,
    {
        s.append("[");
        push_decimal(s, t[i]);
        s.append("]");
        proof {
            let sub = t@.subrange(0, i + 1);
            assert(sub.drop_last() =~= t@.subrange(0, i as int));
        }
        i = i + 1;
        assert(s@ =~= start + index_text(t@.subrange(0, i as int)));
    }
    assert(t@.subrange(0, t.len() as int) =~= t@);
}

fn all_packable_exec(vs: &Vec<PackedVariable>) -> (r: bool)
    ensures
        r == all_packable(vs@),
{
    let mut i: usize = 0;
    while i < vs.len()
        invariant
            i <= vs.len(),
            forall|j: int| 0 <= j < i ==> (#[trigger] pack_kind(vs@[j].ty)) is Some,
        decreases vs.len() - i,
    {
        if pack_kind_exec(&vs[i].ty).is_none() {
            return false;
        }
        i = i + 1;
    }
    true
}

/// The elements in buffer order with their kinds and word offsets, and,
/// when `targets` holds, the expression that names each.
fn layout_slots(data: &PackedData, targets: bool) -> (r: Result<Vec<PackSlot>, PackError>)
    ensures
        r is Ok <==> layout_ok(data.variables@),
        r == Err::<Vec<PackSlot>, PackError>(PackError::UnsupportedType) <==> !all_packable(
            data.variables@,
        ),
        r matches Ok(s) ==> pack_slots_ok(data.variables@, s@),
        targets ==> (r matches Ok(s) ==> pack_targets_ok(*data, s@)),
{
    let vs = &data.variables;
    let ghost kinds = data_kinds(vs@);
    if !all_packable_exec(vs) {
        return Err(PackError::UnsupportedType);
    }
    let mut prefix = String::new();
    match &data.block_identifier {
        None => {},
        Some((_, ident)) => {
            prefix.append(ident.as_str());
            prefix.append(".");
        },
    }
    assert(prefix@ =~= block_prefix(*data));
    let mut slots: Vec<PackSlot> = Vec::new();
    let mut offset: u32 = 0;
    let mut vi: usize = 0;
    while vi < vs.len()
        invariant
            vi <= vs.len(),
            vs == &data.variables,
            kinds == data_kinds(vs@),
            all_packable(vs@),
            prefix@ == block_prefix(*data),
            slots.len() == data_kinds(vs@.subrange(0, vi as int)).len(),
            slots.len() <= kinds.len(),
            offset == slot_offset(kinds, slots.len() as int),
            forall|i: int|
                0 <= i < slots.len() ==> (#[trigger] slots@[i]).kind == kinds[i]
                    && slots@[i].word_offset == slot_offset(kinds, i),
            targets ==> forall|i: int|
                0 <= i < slots.len() ==> (#[trigger] slots@[i]).target@ == element_target(
                    block_prefix(*data),
                    vs@[element_of(vs@, i).0],
                    element_of(vs@, i).1,
                ),
        decreases vs.len() - vi,
    {
        let v = &vs[vi];
        let kind = match pack_kind_exec(&v.ty) {
            Some(k) => k,
            None => {
                return Err(PackError::UnsupportedType);
            },
        };
        let ghost l = slots.len() as int;
        proof {
            lemma_data_kinds_prefix(vs@, vi + 1);
            let p = vs@.subrange(0, vi as int);
            let q = vs@.subrange(0, vi + 1);
            assert(q.drop_last() =~= p);
            assert(q.last() == vs@[vi as int]);
        }
        let count = match var_count_exec(v) {
            Some(c) => c,
            None => {
                proof {
                    lemma_slot_offset_ge_index(kinds, kinds.len() as int);
                }
                return Err(PackError::TooLarge);
            },
        };
        let no_dims: Vec<u32> = Vec::new();
        let dims = match &v.dims {
            Some(d) => d,
            None => &no_dims,
        };
        assert(dims@ == var_dims(*v));
        let mut e: u32 = 0;
        while e < count
            invariant
                vi < vs.len(),
                v == &vs@[vi as int],
                vs == &data.variables,
                kinds == data_kinds(vs@),
                all_packable(vs@),
                kind == pack_kind(v.ty).unwrap(),
                count == var_count(*v),
                dims@ == var_dims(*v),
                prefix@ == block_prefix(*data),
                e <= count,
                l == data_kinds(vs@.subrange(0, vi as int)).len(),
                l + count <= kinds.len(),
                slots.len() == l + e,
                offset == slot_offset(kinds, slots.len() as int),
                forall|i: int|
                    0 <= i < slots.len() ==> (#[trigger] slots@[i]).kind == kinds[i]
                        && slots@[i].word_offset == slot_offset(kinds, i),
                targets ==> forall|i: int|
                    0 <= i < slots.len() ==> (#[trigger] slots@[i]).target@ == element_target(
                        block_prefix(*data),
                        vs@[element_of(vs@, i).0],
                        element_of(vs@, i).1,
                    ),
            decreases count - e,
        {
            proof {
                lemma_element_of(vs@, vi as int, e as int);
            }
            let w = kind.words();
            if offset as u64 + w as u64 > u32::MAX as u64 {
                proof {
                    lemma_slot_offset_monotone(kinds, slots.len() + 1, kinds.len() as int);
                }
                return Err(PackError::TooLarge);
            }
            let mut target = String::new();
            if targets {
                proof {
                    if dims@.len() > 0 {
                        assert forall|j: int| 0 <= j < dims@.len() implies dims@[j] != 0 by {
                            if dims@[j] == 0 {
                                lemma_product_zero(dims@, j);
                            }
                        }
                    }
                }
                let mut t: Vec<u32> = Vec::new();
                push_index_tuple(dims, dims.len(), e, &mut t);
                assert(dims@.subrange(0, dims.len() as int) =~= dims@);
                assert(t@ =~= index_tuple(var_dims(*v), e as nat));
                target.append(prefix.as_str());
                target.append(v.name.as_str());
                push_index_text(&mut target, &t);
                assert(target@ =~= element_target(block_prefix(*data), *v, e as nat));
            }
            slots.push(PackSlot { kind, word_offset: offset, target });
            offset = offset + w;
            e = e + 1;
        }
        vi = vi + 1;
    }
    assert(vs@.subrange(0, vs.len() as int) =~= vs@);
    Ok(slots)
}

/// The elements to read, in buffer order, with their word offsets.
pub fn unpack_slots(data: &PackedData) -> (r: Result<Vec<UnpackSlot>, PackError>)
    ensures
        r is Ok <==> layout_ok(data.variables@),
        r == Err::<Vec<UnpackSlot>, PackError>(PackError::UnsupportedType) <==> !all_packable(
            data.variables@,
        ),
        r matches Ok(s) ==> unpack_slots_ok(data.variables@, s@),
{
    let slots = match layout_slots(data, false) {
        Ok(s) => s,
        Err(e) => {
            return Err(e);
        },
    };
    let mut out: Vec<UnpackSlot> = Vec::new();
    let mut i: usize = 0;
    while i < slots.len()
        invariant
            i <= slots.len(),
            out.len() == i,
            forall|j: int|
                0 <= j < i ==> (#[trigger] out@[j]).kind == slots@[j].kind && out@[j].word_offset
                    == slots@[j].word_offset,
        decreases slots.len() - i,
    {
        out.push(UnpackSlot { kind: slots[i].kind, word_offset: slots[i].word_offset });
        i = i + 1;
    }
    Ok(out)
}

/// The elements to write, in buffer order, with their word offsets and the
/// expressions that name them.
pub fn pack_slots(data: &PackedData) -> (r: Result<Vec<PackSlot>, PackError>)
    ensures
        r is Ok <==> layout_ok(data.variables@),
        r == Err::<Vec<PackSlot>, PackError>(PackError::UnsupportedType) <==> !all_packable(
            data.variables@,
        ),
        r matches Ok(s) ==> pack_targets_ok(*data, s@),
{
    layout_slots(data, true)
}

/// Unpacking and packing visit the same elements at the same word offsets.
pub proof fn lemma_pack_unpack_offsets(
    vs: Seq<PackedVariable>,
    unpacked: Seq<UnpackSlot>,
    packed: Seq<PackSlot>,
)
    requires
        unpack_slots_ok(vs, unpacked),
        pack_slots_ok(vs, packed),
    ensures
        unpacked.len() == packed.len(),
        forall|i: int|
            0 <= i < unpacked.len() ==> #[trigger] unpacked[i].word_offset == packed[i].word_offset
                && unpacked[i].kind == packed[i].kind,
{
    assert forall|i: int| 0 <= i < unpacked.len() implies #[trigger] unpacked[i].word_offset
        == packed[i].word_offset && unpacked[i].kind == packed[i].kind by {
        assert(unpacked[i].kind == data_kinds(vs)[i]);
        assert(packed[i].kind == data_kinds(vs)[i]);
    }
}

/// One field declaration of a block: a type shared by one or more names,
/// each with its array dimensions.
#[derive(Clone, Debug)]
pub struct BlockField {
    pub ty: GlslType,
    pub names: Vec<(String, Option<Vec<u32>>)>,
}

pub open spec fn dims_view(d: Option<Vec<u32>>) -> Option<Seq<u32>> {
    match d {
        None => None,
        Some(v) => Some(v@),
    }
}

/// The variables that a field's names declare.
pub open spec fn names_view(ty: GlslType, ns: Seq<(String, Option<Vec<u32>>)>) -> Seq<
    (GlslType, Seq<char>, Option<Seq<u32>>),
>
    decreases ns.len(),
{
    if ns.len() == 0 {
        Seq::empty()
    } else {
        names_view(ty, ns.drop_last()).push((ty, ns.last().0@, dims_view(ns.last().1)))
    }
}

/// The variables of `fields`, field by field and name by name.
pub open spec fn field_variables(fields: Seq<BlockField>) -> Seq<(GlslType, Seq<char>, Option<Seq<u32>>)>
    decreases fields.len(),
{
    if fields.len() == 0 {
        Seq::empty()
    } else {
        field_variables(fields.drop_last()) + names_view(fields.last().ty, fields.last().names@)
    }
}

/// Type, name and dimensions of each variable.
pub open spec fn variables_view(vs: Seq<PackedVariable>) -> Seq<(GlslType, Seq<char>, Option<Seq<u32>>)>
    decreases vs.len(),
{
    if vs.len() == 0 {
        Seq::empty()
    } else {
        variables_view(vs.drop_last()).push((vs.last().ty, vs.last().name@, dims_view(vs.last().dims)))
    }
}

fn copy_name_dims(n: &(String, Option<Vec<u32>>)) -> (r: (String, Option<Vec<u32>>))
    ensures
        r.0@ == n.0@,
        match (r.1, n.1) {
            (None, None) => true,
            (Some(a), Some(b)) => a@ == b@,
            _ => false,
        },
{
    let dims = match &n.1 {
        None => None,
        Some(d) => {
            let mut out: Vec<u32> = Vec::new();
            let mut i: usize = 0;
            while i < d.len()
                invariant
                    i <= d.len(),
                    out@ == d@.subrange(0, i as int),
                decreases d.len() - i,
            {
                out.push(d[i]);
                i = i + 1;
                assert(out@ =~= d@.subrange(0, i as int));
            }
            assert(out@ =~= d@);
            Some(out)
        },
    };
    (String::from_str(n.0.as_str()), dims)
}

/// The packed data of a block: its fields in order, and, for a named block,
/// the struct type `_crt_struct_<name>` and the block's identifier.
pub fn packed_block(fields: &Vec<BlockField>, block: Option<(&str, &str)>) -> (r: PackedData)
    ensures
        variables_view(r.variables@) == field_variables(fields@),
        match block {
            None => r.block_identifier is None,
            Some((name, ident)) => r.block_identifier matches Some((s, i)) && s@
                == crate::entry::BLOCK_IDENTIFIER_STRUCT_PREFIX@ + name@ && i@ == ident@,
        },
{
    let mut variables: Vec<PackedVariable> = Vec::new();
    let mut f: usize = 0;
    while f < fields.len()
        invariant
            f <= fields.len(),
            variables_view(variables@) == field_variables(fields@.subrange(0, f as int)),
        decreases fields.len() - f,
    {
        let field = &fields[f];
        let ghost base = variables_view(variables@);
        let mut k: usize = 0;
        while k < field.names.len()
            invariant
                k <= field.names.len(),
                field == &fields@[f as int],
                variables_view(variables@) == base + names_view(
                    field.ty,
                    field.names@.subrange(0, k as int),
                ),
            decreases field.names.len() - k,
        {
            let (name, dims) = copy_name_dims(&field.names[k]);
            let ghost before = variables@;
            let v = PackedVariable { ty: field.ty, name, dims };
            variables.push(v);
            proof {
                assert(variables@.drop_last() =~= before);
                let sub = field.names@.subrange(0, k + 1);
                assert(sub.drop_last() =~= field.names@.subrange(0, k as int));
                assert(dims_view(v.dims) == dims_view(field.names@[k as int].1));
                assert(variables_view(variables@) =~= base + names_view(field.ty, sub));
            }
            k = k + 1;
        }
        proof {
            let sub = fields@.subrange(0, f + 1);
            assert(sub.drop_last() =~= fields@.subrange(0, f as int));
            assert(sub.last() == fields@[f as int]);
            assert(field.names@.subrange(0, k as int) =~= field.names@);
        }
        f = f + 1;
    }
    assert(fields@.subrange(0, fields.len() as int) =~= fields@);
    let block_identifier = match block {
        None => None,
        Some((name, ident)) => Some((crate::entry::block_struct_name(name), String::from_str(ident))),
    };
    PackedData { block_identifier, variables }
}

/// How the hit attributes reach the entry function's caller.
#[derive(Clone, Copy, Debug, PartialEq, Eq, Structural)]
pub enum UnpackMode {
    /// No hit attributes: no fragment.
    Nothing,
    /// Declarations only, for the intersection shader to fill.
    DeclareOnly,
    /// Declarations read from the float buffer.
    Unpack,
}

/// Which hit-attribute fragments a stage gets: an intersection shader
/// declares them and packs them afterwards, other stages unpack them.
pub fn hit_attribute_fragments(intersection: bool, has_hit_attributes: bool) -> (r: (UnpackMode, bool))
    ensures
        r.0 == if !has_hit_attributes {
            UnpackMode::Nothing
        } else if intersection {
            UnpackMode::DeclareOnly
        } else {
            UnpackMode::Unpack
        },
        r.1 == (intersection && has_hit_attributes),
{
    if !has_hit_attributes {
        (UnpackMode::Nothing, false)
    } else if intersection {
        (UnpackMode::DeclareOnly, true)
    } else {
        (UnpackMode::Unpack, false)
    }
}

} // verus!
