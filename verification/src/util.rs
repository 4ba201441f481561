//! Value types, function-type tables and the map between local index spaces.

use vstd::prelude::*;
use vstd::slice::slice_subrange;

use crate::error::{Error, Feature, Malformed};

verus! {

/// Widen a 32-bit index to the machine's pointer width.
pub fn u32_to_usize(n: u32) -> (r: usize)
    ensures
        r == n,
{
    n as usize
}

/// A WebAssembly number type.
#[derive(Clone, Copy, Debug, PartialEq, Eq, Structural)]
pub enum ValType {
    I32,
    I64,
    F32,
    F64,
}

impl ValType {
    /// Whether values of this type carry a derivative.
    pub open spec fn spec_is_float(self) -> bool {
        self == ValType::F32 || self == ValType::F64
    }

    #[verifier::when_used_as_spec(spec_is_float)]
    pub fn is_float(self) -> (r: bool)
        ensures
            r == self.spec_is_float(),
    {
        match self {
            ValType::F32 | ValType::F64 => true,
            _ => false,
        }
    }

    /// The one-element list holding this type.
    pub fn singleton(self) -> (r: &'static [ValType])
        ensures
            r@ == seq![self],
    {
        match self {
            ValType::I32 => &[ValType::I32],
            ValType::I64 => &[ValType::I64],
            ValType::F32 => &[ValType::F32],
            ValType::F64 => &[ValType::F64],
        }
    }
}

/// A value type as a module may name it, supported here or not.
#[derive(Clone, Copy, Debug, PartialEq, Eq, Structural)]
pub enum WasmType {
    I32,
    I64,
    F32,
    F64,
    V128,
    Ref,
}

impl ValType {
    /// The number type that `ty` is, if it is one.
    pub open spec fn spec_from_wasm(ty: WasmType) -> Result<ValType, Error> {
        match ty {
            WasmType::I32 => Ok(ValType::I32),
            WasmType::I64 => Ok(ValType::I64),
            WasmType::F32 => Ok(ValType::F32),
            WasmType::F64 => Ok(ValType::F64),
            WasmType::V128 => Err(Error::Unsupported(Feature::Simd)),
            WasmType::Ref => Err(Error::Unsupported(Feature::ReferenceTypes)),
        }
    }

    /// Accept the four number types and refuse vectors and references.
    pub fn from_wasm(ty: WasmType) -> (r: Result<ValType, Error>)
        ensures
            r == Self::spec_from_wasm(ty),
    {
        match ty {
            WasmType::I32 => Ok(ValType::I32),
            WasmType::I64 => Ok(ValType::I64),
            WasmType::F32 => Ok(ValType::F32),
            WasmType::F64 => Ok(ValType::F64),
            WasmType::V128 => Err(Error::Unsupported(Feature::Simd)),
            WasmType::Ref => Err(Error::Unsupported(Feature::ReferenceTypes)),
        }
    }
}

/// The type of a structured control instruction.
#[derive(Clone, Copy, Debug, PartialEq, Eq, Structural)]
pub enum BlockType {
    /// No parameters and no results.
    Empty,
    /// No parameters and one result.
    Result(ValType),
    /// The parameters and results of the function type with this index.
    Func(u32),
}

/// A map whose keys are the four number types.
#[derive(Clone, Copy, Debug, Default)]
pub struct TypeMap<T> {
    pub i32: T,
    pub i64: T,
    pub float32: T,
    pub float64: T,
}

impl<T> TypeMap<T> {
    /// The value stored under `ty`.
    pub open spec fn spec_get(self, ty: ValType) -> T {
        match ty {
            ValType::I32 => self.i32,
            ValType::I64 => self.i64,
            ValType::F32 => self.float32,
            ValType::F64 => self.float64,
        }
    }

    /// This map with `value` stored under `ty`.
    pub open spec fn spec_set(self, ty: ValType, value: T) -> Self {
        match ty {
            ValType::I32 => TypeMap { i32: value, ..self },
            ValType::I64 => TypeMap { i64: value, ..self },
            ValType::F32 => TypeMap { float32: value, ..self },
            ValType::F64 => TypeMap { float64: value, ..self },
        }
    }

    pub fn get(&self, ty: ValType) -> (r: &T)
        ensures
            *r == self.spec_get(ty),
    {
        match ty {
            ValType::I32 => &self.i32,
            ValType::I64 => &self.i64,
            ValType::F32 => &self.float32,
            ValType::F64 => &self.float64,
        }
    }

    pub fn get_mut(&mut self, ty: ValType) -> (r: &mut T)
        ensures
            *r == old(self).spec_get(ty),
            *final(self) == old(self).spec_set(ty, *final(r)),
    {
        match ty {
            ValType::I32 => &mut self.i32,
            ValType::I64 => &mut self.i64,
            ValType::F32 => &mut self.float32,
            ValType::F64 => &mut self.float64,
        }
    }
}

/// A list of function types, in the order of a type section.
pub struct FuncTypes {
    val_types: Vec<ValType>,
    offsets: Vec<(u32, u32)>,
}

impl View for FuncTypes {
    type V = Seq<(Seq<ValType>, Seq<ValType>)>;

    /// The parameters and the results of each type.
    closed spec fn view(&self) -> Self::V {
        Seq::new(
            self.offsets@.len(),
            |t: int|
                (
                    self.val_types@.subrange(self.offsets@[t].0 as int, self.offsets@[t].1 as int),
                    self.val_types@.subrange(self.offsets@[t].1 as int, self.end_at(t)),
                ),
        )
    }
}

impl FuncTypes {
    /// Where the results of type `t` stop.
    spec fn end_at(&self, t: int) -> int {
        if t + 1 < self.offsets@.len() {
            self.offsets@[t + 1].0 as int
        } else {
            self.val_types@.len() as int
        }
    }

    /// The offsets delimit consecutive runs of the flattened value types.
    pub closed spec fn wf(&self) -> bool {
        &&& self.offsets@.len() <= u32::MAX
        &&& self.val_types@.len() <= u32::MAX
        &&& forall|t: int|
            0 <= t < self.offsets@.len() ==> (#[trigger] self.offsets@[t]).0 <= self.offsets@[t].1
                <= self.end_at(t) <= self.val_types@.len()
    }

    /// How many value types all the parameters and results name together.
    pub closed spec fn size(&self) -> nat {
        self.val_types@.len()
    }

    /// The list can be indexed with 32 bits.
    pub proof fn lemma_fits(&self)
        requires
            self.wf(),
        ensures
            self@.len() <= u32::MAX,
            self.size() <= u32::MAX,
    {
    }

    /// Whether one more type with this many value types can be indexed with 32 bits.
    pub open spec fn has_room(&self, extra: nat) -> bool {
        self@.len() < u32::MAX && self.size() + extra <= u32::MAX
    }

    /// Create an empty list of function types.
    pub fn new() -> (r: Self)
        ensures
            r.wf(),
            r@ == Seq::<(Seq<ValType>, Seq<ValType>)>::empty(),
            r.size() == 0,
    {
        let r = Self { val_types: Vec::new(), offsets: Vec::new() };
        assert(r@ =~= Seq::<(Seq<ValType>, Seq<ValType>)>::empty());
        r
    }

    /// How many types the list holds.
    pub fn len(&self) -> (n: u32)
        requires
            self.wf(),
        ensures
            n == self@.len(),
    {
        self.offsets.len() as u32
    }

    /// Push a function type, returning its index.
    ///
    /// The type is refused, and the list left as it was, when its index or the offsets of its
    /// value types would not fit in 32 bits.
    pub fn push(&mut self, params: &[ValType], results: &[ValType]) -> (r: Result<u32, Error>)
        requires
            old(self).wf(),
        ensures
            final(self).wf(),
            match r {
                Ok(typeidx) => {
                    &&& old(self).has_room((params@.len() + results@.len()) as nat)
                    &&& typeidx == old(self)@.len()
                    &&& final(self)@ == old(self)@.push((params@, results@))
                    &&& final(self).size() == old(self).size() + params@.len() + results@.len()
                },
                Err(e) => {
                    &&& !old(self).has_room((params@.len() + results@.len()) as nat)
                    &&& e == Error::Malformed(Malformed::TooLarge)
                    &&& *final(self) == *old(self)
                },
            },
    {
        let n = self.val_types.len();
        if self.offsets.len() >= u32::MAX as usize || params.len() > u32::MAX as usize - n
            || results.len() > u32::MAX as usize - n - params.len() {
            return Err(Error::Malformed(Malformed::TooLarge));
        }
        let typeidx = self.offsets.len() as u32;
        let offset_params = n as u32;
        let mut i: usize = 0;
        while i < params.len()
            invariant
                i <= params@.len(),
                self.offsets == old(self).offsets,
                self.val_types@ == old(self).val_types@ + params@.subrange(0, i as int),
            decreases params@.len() - i,
        {
            self.val_types.push(params[i]);
            i += 1;
            assert(self.val_types@ =~= old(self).val_types@ + params@.subrange(0, i as int));
        }
        assert(params@.subrange(0, params@.len() as int) =~= params@);
        let offset_results = self.val_types.len() as u32;
        let mut j: usize = 0;
        while j < results.len()
            invariant
                j <= results@.len(),
                self.offsets == old(self).offsets,
                self.val_types@ == old(self).val_types@ + params@ + results@.subrange(0, j as int),
            decreases results@.len() - j,
        {
            self.val_types.push(results[j]);
            j += 1;
            assert(self.val_types@ =~= old(self).val_types@ + params@ + results@.subrange(
                0,
                j as int,
            ));
        }
        assert(results@.subrange(0, results@.len() as int) =~= results@);
        self.offsets.push((offset_params, offset_results));
        proof {
            let old_len = old(self).offsets@.len() as int;
            assert forall|t: int| 0 <= t < self.offsets@.len() implies (#[trigger] self.offsets@[t]).0
                <= self.offsets@[t].1 <= self.end_at(t) <= self.val_types@.len() by {
                if t < old_len {
                    assert(self.offsets@[t] == old(self).offsets@[t]);
                    if t + 1 < old_len {
                        assert(self.offsets@[t + 1] == old(self).offsets@[t + 1]);
                    }
                    assert(self.end_at(t) == old(self).end_at(t));
                }
            }
            assert forall|t: int| 0 <= t < old_len implies self@[t] == old(self)@[t] by {
                assert(self.offsets@[t] == old(self).offsets@[t]);
                if t + 1 < old_len {
                    assert(self.offsets@[t + 1] == old(self).offsets@[t + 1]);
                }
                assert(self.end_at(t) == old(self).end_at(t));
                assert(self@[t].0 =~= old(self)@[t].0);
                assert(self@[t].1 =~= old(self)@[t].1);
            }
            assert(self@[old_len].0 =~= params@);
            assert(self@[old_len].1 =~= results@);
            assert(self@ =~= old(self)@.push((params@, results@)));
        }
        Ok(typeidx)
    }

    /// Get the parameters of a function type.
    pub fn params(&self, typeidx: u32) -> (r: &[ValType])
        requires
            self.wf(),
            typeidx < self@.len(),
        ensures
            r@ == self@[typeidx as int].0,
            r@.len() <= u32::MAX,
    {
        let t = u32_to_usize(typeidx);
        let (offset_params, offset_results) = self.offsets[t];
        let i = u32_to_usize(offset_params);
        let j = u32_to_usize(offset_results);
        slice_subrange(self.val_types.as_slice(), i, j)
    }

    /// Get the results of a function type.
    pub fn results(&self, typeidx: u32) -> (r: &[ValType])
        requires
            self.wf(),
            typeidx < self@.len(),
        ensures
            r@ == self@[typeidx as int].1,
            r@.len() <= u32::MAX,
    {
        let t = u32_to_usize(typeidx);
        let (_, offset_results) = self.offsets[t];
        let i = u32_to_usize(offset_results);
        let j = if t + 1 < self.offsets.len() {
            u32_to_usize(self.offsets[t + 1].0)
        } else {
            self.val_types.len()
        };
        slice_subrange(self.val_types.as_slice(), i, j)
    }
}

/// How many source locals the first `n` entries hold.
pub open spec fn keys_upto(entries: Seq<(u32, ValType)>, n: int) -> int
    decreases n,
{
    if n <= 0 {
        0
    } else {
        keys_upto(entries, n - 1) + entries[n - 1].0
    }
}

/// How many transformed locals the first `n` entries take, each source local of a type taking as
/// many as `type_map` gives for that type.
pub open spec fn vals_upto(entries: Seq<(u32, ValType)>, type_map: TypeMap<u32>, n: int) -> int
    decreases n,
{
    if n <= 0 {
        0
    } else {
        vals_upto(entries, type_map, n - 1) + type_map.spec_get(entries[n - 1].1) * entries[n
            - 1].0
    }
}

/// The entry that holds the source local `index`: the entries before it hold too few locals to
/// reach `index`, and together with it they hold enough.
pub open spec fn holds_local(entries: Seq<(u32, ValType)>, e: int, index: int) -> bool {
    0 <= e < entries.len() && keys_upto(entries, e) <= index < keys_upto(entries, e + 1)
}

/// The entry that holds the source local `index`, where there is one.
pub open spec fn entry_of(entries: Seq<(u32, ValType)>, index: int) -> int {
    choose|e: int| holds_local(entries, e, index)
}

pub proof fn lemma_keys_upto_monotone(entries: Seq<(u32, ValType)>, a: int, b: int)
    requires
        0 <= a <= b,
    ensures
        0 <= keys_upto(entries, a) <= keys_upto(entries, b),
    decreases b,
{
    if a < b {
        lemma_keys_upto_monotone(entries, a, b - 1);
    } else if a > 0 {
        lemma_keys_upto_monotone(entries, a - 1, a - 1);
    }
}

pub proof fn lemma_vals_upto_monotone(
    entries: Seq<(u32, ValType)>,
    type_map: TypeMap<u32>,
    a: int,
    b: int,
)
    requires
        0 <= a <= b,
    ensures
        0 <= vals_upto(entries, type_map, a) <= vals_upto(entries, type_map, b),
    decreases b,
{
    if a < b {
        lemma_vals_upto_monotone(entries, type_map, a, b - 1);
        assert(0 <= type_map.spec_get(entries[b - 1].1) * entries[b - 1].0) by (nonlinear_arith)
            requires
                0 <= type_map.spec_get(entries[b - 1].1),
                0 <= entries[b - 1].0,
        ;
    } else if a > 0 {
        lemma_vals_upto_monotone(entries, type_map, a - 1, a - 1);
        assert(0 <= type_map.spec_get(entries[a - 1].1) * entries[a - 1].0) by (nonlinear_arith)
            requires
                0 <= type_map.spec_get(entries[a - 1].1),
                0 <= entries[a - 1].0,
        ;
    }
}

/// At most one entry holds a given source local.
pub proof fn lemma_holds_local_unique(entries: Seq<(u32, ValType)>, e1: int, e2: int, index: int)
    requires
        holds_local(entries, e1, index),
        holds_local(entries, e2, index),
    ensures
        e1 == e2,
{
    if e1 < e2 {
        lemma_keys_upto_monotone(entries, e1 + 1, e2);
    } else if e2 < e1 {
        lemma_keys_upto_monotone(entries, e2 + 1, e1);
    }
}

/// Map local indices in a source function to local indices in a transformed function.
///
/// Locals are given in entries, each a run of some count of locals of one type. Every source
/// local of a type takes the same number of consecutive transformed locals, which the type map
/// gives for that type.
pub struct LocalMap {
    type_map: TypeMap<u32>,
    /// For each entry, the smallest index greater than all the indices of that entry, in the
    /// source function and in the transformed function.
    ends: Vec<(u32, u32)>,
    /// For each entry, the type of its locals.
    types: Vec<ValType>,
    entries: Ghost<Seq<(u32, ValType)>>,
}

impl LocalMap {
    /// The entries pushed so far, each a count and a type.
    pub closed spec fn entries(&self) -> Seq<(u32, ValType)> {
        self.entries@
    }

    /// How many transformed locals a source local of each type takes.
    pub closed spec fn type_map(&self) -> TypeMap<u32> {
        self.type_map
    }

    /// The stored ends are the running totals of the entries.
    pub closed spec fn wf(&self) -> bool {
        &&& self.ends@.len() == self.entries@.len()
        &&& self.types@.len() == self.entries@.len()
        &&& forall|e: int|
            0 <= e < self.entries@.len() ==> {
                &&& (#[trigger] self.ends@[e]).0 == keys_upto(self.entries@, e + 1)
                &&& self.ends@[e].1 == vals_upto(self.entries@, self.type_map, e + 1)
                &&& self.types@[e] == self.entries@[e].1
            }
    }

    /// The number of locals in the source function.
    pub open spec fn spec_count_keys(&self) -> int {
        keys_upto(self.entries(), self.entries().len() as int)
    }

    /// The number of locals in the transformed function.
    pub open spec fn spec_count_vals(&self) -> int {
        vals_upto(self.entries(), self.type_map(), self.entries().len() as int)
    }

    /// What `get` gives for the source local `index`, which entry `e` holds.
    pub open spec fn spec_get(&self, e: int, index: u32) -> (ValType, Option<u32>) {
        let ty = self.entries()[e].1;
        let n = self.type_map().spec_get(ty);
        let mapped = if n == 0 {
            None
        } else {
            Some(
                (vals_upto(self.entries(), self.type_map(), e) + n * (index - keys_upto(
                    self.entries(),
                    e,
                ))) as u32,
            )
        };
        (ty, mapped)
    }

    /// Create a new map of locals.
    pub fn new(type_map: TypeMap<u32>) -> (r: Self)
        ensures
            r.wf(),
            r.type_map() == type_map,
            r.entries() == Seq::<(u32, ValType)>::empty(),
    {
        Self { type_map, ends: Vec::new(), types: Vec::new(), entries: Ghost(Seq::empty()) }
    }

    /// Add an entry to the local map.
    pub fn push(&mut self, count: u32, ty: ValType)
        requires
            old(self).wf(),
            old(self).spec_count_keys() + count <= u32::MAX,
            old(self).spec_count_vals() + old(self).type_map().spec_get(ty) * count <= u32::MAX,
        ensures
            final(self).wf(),
            final(self).type_map() == old(self).type_map(),
            final(self).entries() == old(self).entries().push((count, ty)),
            final(self).spec_count_keys() == old(self).spec_count_keys() + count,
            final(self).spec_count_vals() == old(self).spec_count_vals() + old(
                self,
            ).type_map().spec_get(ty) * count,
    {
        let (k, v) = self.last_end();
        let multiplier = *self.type_map.get(ty);
        proof {
            assert(0 <= multiplier * count) by (nonlinear_arith)
                requires
                    0 <= multiplier,
                    0 <= count,
            ;
        }
        self.ends.push((k + count, v + multiplier * count));
        self.types.push(ty);
        proof {
            let before = old(self).entries@;
            let after = before.push((count, ty));
            self.entries@ = after;
            assert forall|e: int| 0 <= e <= before.len() implies keys_upto(after, e) == keys_upto(
                before,
                e,
            ) && vals_upto(after, self.type_map, e) == vals_upto(before, self.type_map, e) by {
                Self::lemma_upto_prefix(before, after, self.type_map, e);
            }
        }
    }

    /// The totals of the first entries depend on those entries alone.
    pub proof fn lemma_upto_prefix(
        a: Seq<(u32, ValType)>,
        b: Seq<(u32, ValType)>,
        type_map: TypeMap<u32>,
        n: int,
    )
        requires
            0 <= n <= a.len() <= b.len(),
            forall|i: int| 0 <= i < n ==> a[i] == b[i],
        ensures
            keys_upto(a, n) == keys_upto(b, n),
            vals_upto(a, type_map, n) == vals_upto(b, type_map, n),
        decreases n,
    {
        if n > 0 {
            Self::lemma_upto_prefix(a, b, type_map, n - 1);
        }
    }

    fn last_end(&self) -> (r: (u32, u32))
        requires
            self.wf(),
        ensures
            r.0 == self.spec_count_keys(),
            r.1 == self.spec_count_vals(),
    {
        let n = self.ends.len();
        if n == 0 {
            (0, 0)
        } else {
            self.ends[n - 1]
        }
    }

    /// Get the number of locals in the source function.
    pub fn count_keys(&self) -> (r: u32)
        requires
            self.wf(),
        ensures
            r == self.spec_count_keys(),
    {
        self.last_end().0
    }

    /// Get the number of locals in the transformed function.
    pub fn count_vals(&self) -> (r: u32)
        requires
            self.wf(),
        ensures
            r == self.spec_count_vals(),
    {
        self.last_end().1
    }

    /// Get the type and mapped index of a local, given a local's `index` in the source function.
    ///
    /// The mapped index is that of the first transformed local that stands for the source local;
    /// there is none where locals of its type take no transformed local.
    pub fn get(&self, index: u32) -> (r: (ValType, Option<u32>))
        requires
            self.wf(),
            index < self.spec_count_keys(),
        ensures
            holds_local(self.entries(), entry_of(self.entries(), index as int), index as int),
            r == self.spec_get(entry_of(self.entries(), index as int), index),
            r.0 == self.locals()[index as int],
            r.1 == if self.type_map().spec_get(r.0) == 0 {
                None
            } else {
                Some(taken_by(self.locals(), self.type_map(), index as int) as u32)
            },
    {
        proof {
            self.lemma_get(index);
        }
        let mut lo: usize = 0;
        let mut hi: usize = self.ends.len();
        proof {
            lemma_keys_upto_monotone(self.entries@, 0, 0);
        }
        // The first entry whose end lies beyond `index`.
        while lo < hi
            invariant
                self.wf(),
                0 <= lo <= hi <= self.ends@.len(),
                keys_upto(self.entries@, lo as int) <= index,
                hi == self.ends@.len() || index < self.ends@[hi as int].0,
                index < self.spec_count_keys(),
            decreases hi - lo,
        {
            let mid = lo + (hi - lo) / 2;
            if self.ends[mid].0 <= index {
                lo = mid + 1;
            } else {
                hi = mid;
            }
        }
        assert(lo < self.ends@.len());
        let i = lo;
        let ty = self.types[i];
        let (k, v) = if i == 0 {
            (0, 0)
        } else {
            self.ends[i - 1]
        };
        let n = *self.type_map.get(ty);
        proof {
            let e = i as int;
            assert(self.ends@[e].0 == keys_upto(self.entries@, e + 1));
            if e > 0 {
                assert(self.ends@[e - 1].0 == keys_upto(self.entries@, e));
            }
            assert(k == keys_upto(self.entries@, e));
            assert(v == vals_upto(self.entries@, self.type_map, e));
            assert(holds_local(self.entries@, e, index as int));
            lemma_vals_upto_monotone(self.entries@, self.type_map, 0, e);
            let count = self.entries@[e].0;
            assert(0 <= n * (index - k) <= n * count) by (nonlinear_arith)
                requires
                    0 <= n,
                    0 <= index - k < count,
            ;
        }
        let mapped = if n == 0 {
            None
        } else {
            Some(v + n * (index - k))
        };
        proof {
            lemma_holds_local_unique(
                self.entries(),
                i as int,
                entry_of(self.entries(), index as int),
                index as int,
            );
        }
        (ty, mapped)
    }

    /// The source entries of the local map: the count and type of each.
    pub fn keys(&self) -> (r: Vec<(u32, ValType)>)
        requires
            self.wf(),
        ensures
            r@ == self.entries(),
    {
        let mut out: Vec<(u32, ValType)> = Vec::new();
        let mut start: u32 = 0;
        let mut e: usize = 0;
        while e < self.ends.len()
            invariant
                self.wf(),
                e <= self.ends@.len(),
                start == keys_upto(self.entries@, e as int),
                out@ == self.entries@.subrange(0, e as int),
            decreases self.ends@.len() - e,
        {
            let end = self.ends[e].0;
            out.push((end - start, self.types[e]));
            start = end;
            e += 1;
            assert(out@ =~= self.entries@.subrange(0, e as int));
        }
        assert(self.entries@.subrange(0, e as int) =~= self.entries@);
        out
    }

    /// The transformed entries of the local map: for each source entry its type and the number
    /// of transformed locals that it takes.
    pub fn vals(&self) -> (r: Vec<(u32, ValType)>)
        requires
            self.wf(),
        ensures
            r@.len() == self.entries().len(),
            forall|e: int|
                0 <= e < r@.len() ==> (#[trigger] r@[e]).1 == self.entries()[e].1 && r@[e].0
                    == self.type_map().spec_get(self.entries()[e].1) * self.entries()[e].0,
    {
        let mut out: Vec<(u32, ValType)> = Vec::new();
        let mut start: u32 = 0;
        let mut e: usize = 0;
        while e < self.ends.len()
            invariant
                self.wf(),
                e <= self.ends@.len(),
                start == vals_upto(self.entries@, self.type_map, e as int),
                out@.len() == e,
                forall|j: int|
                    0 <= j < e ==> (#[trigger] out@[j]).1 == self.entries@[j].1 && out@[j].0
                        == self.type_map.spec_get(self.entries@[j].1) * self.entries@[j].0,
            decreases self.ends@.len() - e,
        {
            let end = self.ends[e].1;
            proof {
                assert(0 <= self.type_map.spec_get(self.entries@[e as int].1)
                    * self.entries@[e as int].0) by (nonlinear_arith)
                    requires
                        0 <= self.type_map.spec_get(self.entries@[e as int].1),
                        0 <= self.entries@[e as int].0,
                ;
            }
            out.push((end - start, self.types[e]));
            start = end;
            e += 1;
        }
        out
    }
}

/// The types of the source locals that the first `n` entries hold, one for each local.
pub open spec fn locals_of(entries: Seq<(u32, ValType)>, n: int) -> Seq<ValType>
    decreases n,
{
    if n <= 0 {
        Seq::empty()
    } else {
        locals_of(entries, n - 1) + Seq::new(entries[n - 1].0 as nat, |i: int| entries[n - 1].1)
    }
}

/// How many transformed locals the first `k` of the source locals `locals` take together.
pub open spec fn taken_by(locals: Seq<ValType>, type_map: TypeMap<u32>, k: int) -> int
    decreases k,
{
    if k <= 0 {
        0
    } else {
        taken_by(locals, type_map, k - 1) + type_map.spec_get(locals[k - 1])
    }
}

/// What the first source locals take depends on those locals alone.
pub proof fn lemma_taken_by_prefix(
    a: Seq<ValType>,
    b: Seq<ValType>,
    type_map: TypeMap<u32>,
    k: int,
)
    requires
        0 <= k <= a.len() <= b.len(),
        forall|i: int| 0 <= i < k ==> a[i] == b[i],
    ensures
        taken_by(a, type_map, k) == taken_by(b, type_map, k),
    decreases k,
{
    if k > 0 {
        lemma_taken_by_prefix(a, b, type_map, k - 1);
    }
}

/// Source locals of one type take the same number of transformed locals each.
pub proof fn lemma_taken_by_run(
    locals: Seq<ValType>,
    type_map: TypeMap<u32>,
    from: int,
    to: int,
    ty: ValType,
)
    requires
        0 <= from <= to <= locals.len(),
        forall|i: int| from <= i < to ==> locals[i] == ty,
    ensures
        taken_by(locals, type_map, to) == taken_by(locals, type_map, from) + type_map.spec_get(ty)
            * (to - from),
    decreases to - from,
{
    if from < to {
        lemma_taken_by_run(locals, type_map, from, to - 1, ty);
        assert(type_map.spec_get(ty) * (to - from) == type_map.spec_get(ty) * (to - 1 - from)
            + type_map.spec_get(ty)) by (nonlinear_arith);
    } else {
        assert(type_map.spec_get(ty) * (to - from) == 0) by (nonlinear_arith)
            requires
                to - from == 0,
        ;
    }
}

/// The entries hold one source local for each unit of their counts.
pub proof fn lemma_locals_len(entries: Seq<(u32, ValType)>, n: int)
    requires
        0 <= n <= entries.len(),
    ensures
        locals_of(entries, n).len() == keys_upto(entries, n),
    decreases n,
{
    if n > 0 {
        lemma_locals_len(entries, n - 1);
    }
}

/// A source local has the type of the entry that holds it.
pub proof fn lemma_locals_at(entries: Seq<(u32, ValType)>, n: int, e: int, index: int)
    requires
        0 <= e < n <= entries.len(),
        keys_upto(entries, e) <= index < keys_upto(entries, e + 1),
    ensures
        0 <= index < locals_of(entries, n).len(),
        locals_of(entries, n)[index] == entries[e].1,
    decreases n,
{
    lemma_locals_len(entries, n);
    lemma_locals_len(entries, n - 1);
    lemma_keys_upto_monotone(entries, 0, e);
    lemma_keys_upto_monotone(entries, e + 1, n);
    if e < n - 1 {
        lemma_locals_at(entries, n - 1, e, index);
        lemma_keys_upto_monotone(entries, e + 1, n - 1);
    }
}

/// The totals of the entries are what their locals take.
pub proof fn lemma_locals_taken(entries: Seq<(u32, ValType)>, type_map: TypeMap<u32>, n: int)
    requires
        0 <= n <= entries.len(),
    ensures
        taken_by(locals_of(entries, n), type_map, keys_upto(entries, n)) == vals_upto(
            entries,
            type_map,
            n,
        ),
    decreases n,
{
    if n > 0 {
        lemma_locals_taken(entries, type_map, n - 1);
        lemma_locals_len(entries, n - 1);
        lemma_locals_len(entries, n);
        lemma_keys_upto_monotone(entries, 0, n - 1);
        let before = locals_of(entries, n - 1);
        let all = locals_of(entries, n);
        let from = keys_upto(entries, n - 1);
        let to = keys_upto(entries, n);
        lemma_taken_by_prefix(before, all, type_map, from);
        assert forall|i: int| from <= i < to implies all[i] == entries[n - 1].1 by {
            lemma_locals_at(entries, n, n - 1, i);
        }
        lemma_taken_by_run(all, type_map, from, to, entries[n - 1].1);
    }
}

impl LocalMap {
    /// The types of the locals of the source function, one for each local.
    pub open spec fn locals(&self) -> Seq<ValType> {
        locals_of(self.entries(), self.entries().len() as int)
    }

    /// What `get` gives for a local of the source function: its type, and the first of the
    /// transformed locals that stand for it, which is as many as the locals before it take
    /// together; none where locals of its type take none.
    pub proof fn lemma_get(&self, index: u32)
        requires
            index < self.spec_count_keys(),
        ensures
            index < self.locals().len(),
            self.spec_get(entry_of(self.entries(), index as int), index) == (
                self.locals()[index as int],
                if self.type_map().spec_get(self.locals()[index as int]) == 0 {
                    None
                } else {
                    Some(taken_by(self.locals(), self.type_map(), index as int) as u32)
                },
            ),
    {
        let entries = self.entries();
        let n = entries.len() as int;
        let locals = self.locals();
        lemma_entry_exists(entries, n, index as int);
        let e = entry_of(entries, index as int);
        lemma_locals_len(entries, n);
        lemma_locals_len(entries, e);
        lemma_locals_taken(entries, self.type_map(), e);
        let from = keys_upto(entries, e);
        lemma_locals_at(entries, n, e, index as int);
        assert forall|i: int| from <= i < index implies locals[i] == entries[e].1 by {
            lemma_locals_at(entries, n, e, i);
        }
        lemma_keys_upto_monotone(entries, e, n);
        lemma_keys_upto_monotone(entries, 0, e);
        assert forall|i: int| 0 <= i < from implies locals_of(entries, e)[i] == locals[i] by {
            lemma_entry_exists(entries, e, i);
            let d = entry_of(entries, i);
            lemma_holds_local_below(entries, d, e, i);
            lemma_locals_at(entries, e, d, i);
            lemma_locals_at(entries, n, d, i);
        }
        lemma_taken_by_prefix(locals_of(entries, e), locals, self.type_map(), from);
        lemma_taken_by_run(locals, self.type_map(), from, index as int, entries[e].1);
    }
}

/// Every local that the first `n` entries hold is held by one of them.
pub proof fn lemma_entry_exists(entries: Seq<(u32, ValType)>, n: int, index: int)
    requires
        0 <= n <= entries.len(),
        0 <= index < keys_upto(entries, n),
    ensures
        holds_local(entries, entry_of(entries, index), index),
        entry_of(entries, index) < n,
    decreases n,
{
    if n > 0 {
        if index < keys_upto(entries, n - 1) {
            lemma_entry_exists(entries, n - 1, index);
        } else {
            assert(holds_local(entries, n - 1, index));
            lemma_holds_local_unique(entries, n - 1, entry_of(entries, index), index);
        }
    }
}

/// An entry that holds a local which stands before the entry `e` stands before `e`.
pub proof fn lemma_holds_local_below(entries: Seq<(u32, ValType)>, d: int, e: int, index: int)
    requires
        holds_local(entries, d, index),
        0 <= e,
        index < keys_upto(entries, e),
    ensures
        d < e,
{
    if d >= e {
        lemma_keys_upto_monotone(entries, e, d);
    }
}

} // verus!
