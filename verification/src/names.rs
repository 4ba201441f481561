//! The name section of a transformed module: the names of the source module, and names like
//! them for what the transformation adds.

use vstd::prelude::*;
use vstd::string::StringExecFns;
use vstd::utf8::encode_utf8;

use crate::binary::{name_fits, sized, write_name, write_sized};
use crate::error::{Error, Malformed};
use crate::leb128;
use crate::module::{IndirectNaming, Name, Naming};
use crate::helper::{NumImports, OFFSET_FUNCTIONS, OFFSET_GLOBALS, OFFSET_MEMORIES, OFFSET_TYPES};
use crate::reverse::{float_count, num_floats, spec_type_map, FunctionInfo};
use crate::util::FuncTypes;
use crate::stack::StackHeight;
use crate::util::{entry_of, keys_upto, vals_upto, LocalMap, ValType};
use crate::name::{after, given, numbered, recompose, NameGen, NameSet, Used};

verus! {

/// The indices and names of a list of namings.
pub open spec fn namings(list: Seq<Naming>) -> Seq<(u32, Seq<char>)> {
    Seq::new(list.len(), |i: int| (list[i].index, list[i].name@))
}

/// The names in use after the first `k` of `list` are inserted into a set.
pub open spec fn set_after(start: Used, list: Seq<(u32, Seq<char>)>, k: nat) -> Used
    decreases k,
{
    if k == 0 {
        start
    } else {
        after(set_after(start, list, (k - 1) as nat), list[k - 1].1)
    }
}

/// The names in use after the first `k` wishes.
pub open spec fn gen_state(start: Used, wishes: Seq<(u32, Seq<char>)>, k: nat) -> Used
    decreases k,
{
    if k == 0 {
        start
    } else {
        after(gen_state(start, wishes, (k - 1) as nat), wishes[k - 1].1)
    }
}

/// What is given for a list of wishes, one after the other: each keeps its index.
pub open spec fn granted(start: Used, wishes: Seq<(u32, Seq<char>)>) -> Seq<(u32, Seq<char>)> {
    Seq::new(
        wishes.len(),
        |i: int| (wishes[i].0, given(gen_state(start, wishes, i as nat), wishes[i].1)),
    )
}

/// Whether no wish of a list is met with a name that was given before: for none of them the
/// numbers behind its base have run out.
pub open spec fn never_fails(start: Used, wishes: Seq<(u32, Seq<char>)>) -> bool {
    forall|k: int|
        0 <= k < wishes.len() ==> !crate::name::fails(
            #[trigger] gen_state(start, wishes, k as nat),
            wishes[k].1,
        )
}

/// The names in use stay well formed and in use while wishes are met.
pub proof fn lemma_gen_state(start: Used, wishes: Seq<(u32, Seq<char>)>, k: nat, n: nat)
    requires
        crate::name::names_wf(start),
        k <= n <= wishes.len(),
    ensures
        crate::name::names_wf(gen_state(start, wishes, n)),
        forall|name: Seq<char>|
            crate::name::in_use(gen_state(start, wishes, k), name) ==> crate::name::in_use(
                gen_state(start, wishes, n),
                name,
            ),
    decreases n,
{
    if n > 0 {
        if k < n {
            lemma_gen_state(start, wishes, k, (n - 1) as nat);
        } else {
            lemma_gen_state(start, wishes, (n - 1) as nat, (n - 1) as nat);
        }
        crate::name::lemma_given_is_new(gen_state(start, wishes, (n - 1) as nat), wishes[n - 1].1);
    }
}

/// Every name that is given for a wish is new: it was not in use when the first wish was made,
/// and it differs from the names given for the wishes before it.
pub proof fn lemma_granted_new(start: Used, wishes: Seq<(u32, Seq<char>)>, i: int, j: int)
    requires
        crate::name::names_wf(start),
        never_fails(start, wishes),
        0 <= i < j < wishes.len(),
    ensures
        !crate::name::in_use(start, granted(start, wishes)[i].1),
        !crate::name::in_use(start, granted(start, wishes)[j].1),
        granted(start, wishes)[i].1 != granted(start, wishes)[j].1,
{
    let at_i = gen_state(start, wishes, i as nat);
    let at_j = gen_state(start, wishes, j as nat);
    lemma_gen_state(start, wishes, 0, i as nat);
    lemma_gen_state(start, wishes, 0, j as nat);
    lemma_gen_state(start, wishes, (i + 1) as nat, j as nat);
    crate::name::lemma_given_is_new(at_i, wishes[i].1);
    crate::name::lemma_given_is_new(at_j, wishes[j].1);
    assert(gen_state(start, wishes, (i + 1) as nat) == after(at_i, wishes[i].1));
}

/// Copy a list of namings.
pub fn copy(list: &[Naming]) -> (r: Vec<Naming>)
    ensures
        namings(r@) == namings(list@),
{
    let mut out: Vec<Naming> = Vec::new();
    let mut i: usize = 0;
    while i < list.len()
        invariant
            i <= list@.len(),
            out@.len() == i,
            forall|j: int|
                0 <= j < i ==> (#[trigger] out@[j]).index == list@[j].index && out@[j].name@
                    == list@[j].name@,
        decreases list@.len() - i,
    {
        out.push(Naming { index: list[i].index, name: list[i].name.clone() });
        i += 1;
    }
    assert(namings(out@) =~= namings(list@));
    out
}

/// Insert the names of a list into a set.
pub fn collect(set: &mut NameSet, list: &[Naming])
    requires
        old(set).wf(),
    ensures
        final(set).wf(),
        final(set)@ == set_after(old(set)@, namings(list@), list@.len()),
{
    let mut i: usize = 0;
    while i < list.len()
        invariant
            i <= list@.len(),
            set.wf(),
            set@ == set_after(old(set)@, namings(list@), i as nat),
        decreases list@.len() - i,
    {
        let _ = set.insert(list[i].name.as_str());
        i += 1;
    }
}

/// Give a name for each wish of a list, one after the other.
pub fn generate(names: &mut NameGen, wishes: &[Naming]) -> (r: Vec<Naming>)
    requires
        old(names).wf(),
    ensures
        final(names).wf(),
        final(names)@ == gen_state(old(names)@, namings(wishes@), wishes@.len()),
        namings(r@) == granted(old(names)@, namings(wishes@)),
{
    let mut out: Vec<Naming> = Vec::new();
    let mut i: usize = 0;
    while i < wishes.len()
        invariant
            i <= wishes@.len(),
            names.wf(),
            names@ == gen_state(old(names)@, namings(wishes@), i as nat),
            out@.len() == i,
            forall|j: int|
                0 <= j < i ==> (#[trigger] out@[j]).index == wishes@[j].index && out@[j].name@
                    == given(gen_state(old(names)@, namings(wishes@), j as nat), wishes@[j].name@),
        decreases wishes@.len() - i,
    {
        let name = names.insert(wishes[i].name.as_str());
        out.push(Naming { index: wishes[i].index, name });
        i += 1;
    }
    assert(namings(out@) =~= granted(old(names)@, namings(wishes@)));
    out
}

/// Where the first of the two items stands that stand for the item `index` of a source module:
/// the items double, and from `threshold` on they stand behind `offset` more items.
pub open spec fn doubled(index: u32, offset: u32, threshold: u32) -> int {
    2 * index + if index >= threshold {
        offset as int
    } else {
        0
    }
}

/// Whether both items that stand for each entry of a list can be indexed with 32 bits.
pub open spec fn doubles_fit(list: Seq<(u32, Seq<char>)>, offset: u32, threshold: u32) -> bool {
    forall|i: int| 0 <= i < list.len() ==> doubled((#[trigger] list[i]).0, offset, threshold) + 1
        <= u32::MAX
}

/// The names of a source module for the first of the two items that stand for each item.
pub open spec fn forward_names(list: Seq<(u32, Seq<char>)>, offset: u32, threshold: u32) -> Seq<
    (u32, Seq<char>),
> {
    Seq::new(list.len(), |i: int| (doubled(list[i].0, offset, threshold) as u32, list[i].1))
}

/// The names wished for the second of the two items that stand for each item: the name of the
/// item with `_bwd` behind it.
pub open spec fn backward_wishes(list: Seq<(u32, Seq<char>)>, offset: u32, threshold: u32) -> Seq<
    (u32, Seq<char>),
> {
    Seq::new(
        list.len(),
        |i: int| ((doubled(list[i].0, offset, threshold) + 1) as u32, list[i].1 + "_bwd"@),
    )
}

/// The names in use once the names of a list are read.
pub open spec fn read(list: Seq<(u32, Seq<char>)>) -> Used {
    set_after(Map::empty(), list, list.len())
}

/// The names for the items that stand for the named items of a source module: the names of
/// the source module for the first of each two, and names like them for the second.
pub open spec fn mirrored(list: Seq<(u32, Seq<char>)>, offset: u32, threshold: u32) -> Seq<
    (u32, Seq<char>),
> {
    forward_names(list, offset, threshold) + granted(
        read(list),
        backward_wishes(list, offset, threshold),
    )
}

/// The names in use once the names of [`mirrored`] are given.
pub open spec fn mirrored_used(list: Seq<(u32, Seq<char>)>, offset: u32, threshold: u32) -> Used {
    gen_state(read(list), backward_wishes(list, offset, threshold), list.len())
}

/// Name the items that stand for the named items of a source module.
pub fn mirror(list: &[Naming], offset: u32, threshold: u32) -> (r: Result<
    (Vec<Naming>, NameGen),
    Error,
>)
    ensures
        match r {
            Ok((names, used)) => {
                &&& doubles_fit(namings(list@), offset, threshold)
                &&& used.wf()
                &&& used@ == mirrored_used(namings(list@), offset, threshold)
                &&& namings(names@) == mirrored(namings(list@), offset, threshold)
            },
            Err(e) => !doubles_fit(namings(list@), offset, threshold) && e == Error::Malformed(
                Malformed::TooLarge,
            ),
        },
{
    let ghost source = namings(list@);
    let mut names: Vec<Naming> = Vec::new();
    let mut wishes: Vec<Naming> = Vec::new();
    let mut i: usize = 0;
    proof {
        reveal_strlit("_bwd");
    }
    while i < list.len()
        invariant
            i <= list@.len(),
            source == namings(list@),
            names@.len() == i,
            wishes@.len() == i,
            forall|j: int|
                0 <= j < i ==> doubled((#[trigger] source[j]).0, offset, threshold) + 1
                    <= u32::MAX,
            forall|j: int|
                0 <= j < i ==> (#[trigger] names@[j]).index == doubled(
                    source[j].0,
                    offset,
                    threshold,
                ) && names@[j].name@ == source[j].1,
            forall|j: int|
                0 <= j < i ==> (#[trigger] wishes@[j]).index == doubled(
                    source[j].0,
                    offset,
                    threshold,
                ) + 1 && wishes@[j].name@ == source[j].1 + "_bwd"@,
        decreases list@.len() - i,
    {
        let index = list[i].index;
        let shift = if index >= threshold {
            offset
        } else {
            0
        };
        assert(source[i as int].0 == index);
        if 2 * (index as u64) + (shift as u64) + 1 > u32::MAX as u64 {
            return Err(Error::Malformed(Malformed::TooLarge));
        }
        let first = 2 * index + shift;
        names.push(Naming { index: first, name: list[i].name.clone() });
        let mut wish = list[i].name.clone();
        wish.append("_bwd");
        wishes.push(Naming { index: first + 1, name: wish });
        i += 1;
    }
    assert(namings(names@) =~= forward_names(source, offset, threshold));
    assert(namings(wishes@) =~= backward_wishes(source, offset, threshold));
    let mut set = NameSet::new();
    collect(&mut set, list);
    let mut used = set.done();
    let mut given = generate(&mut used, wishes.as_slice());
    let ghost forward = names@;
    names.append(&mut given);
    assert(namings(names@) =~= mirrored(source, offset, threshold));
    Ok((names, used))
}

/// Wishes for `count` names made of a base and the numbers from 0 on, for the indices from
/// `first` on.
pub open spec fn numbered_wishes(base: Seq<char>, first: int, count: u32) -> Seq<(u32, Seq<char>)> {
    Seq::new(count as nat, |i: int| ((first + i) as u32, numbered(base, i as u32)))
}

fn push_numbered_wishes(wishes: &mut Vec<Naming>, base: &str, first: u32, count: u32)
    requires
        first + count <= u32::MAX,
    ensures
        namings(final(wishes)@) == namings(old(wishes)@) + numbered_wishes(
            base@,
            first as int,
            count,
        ),
{
    let mut i: u32 = 0;
    assert(namings(wishes@) =~= namings(old(wishes)@) + numbered_wishes(base@, first as int, 0));
    while i < count
        invariant
            i <= count,
            first + count <= u32::MAX,
            namings(wishes@) == namings(old(wishes)@) + numbered_wishes(base@, first as int, i),
        decreases count - i,
    {
        let ghost before = wishes@;
        wishes.push(Naming { index: first + i, name: recompose(base, i) });
        assert(namings(wishes@) =~= namings(before).push(((first + i) as u32, numbered(base@, i))));
        i += 1;
        assert(namings(wishes@) =~= namings(old(wishes)@) + numbered_wishes(
            base@,
            first as int,
            i,
        ));
    }
}

/// Wishes for the given names, for the indices from `first` on.
pub open spec fn listed_wishes(names: Seq<Seq<char>>, first: int) -> Seq<(u32, Seq<char>)> {
    Seq::new(names.len(), |i: int| ((first + i) as u32, names[i]))
}

fn listed(names: &[&'static str], first: u32) -> (wishes: Vec<Naming>)
    requires
        first + names@.len() <= u32::MAX,
    ensures
        namings(wishes@) == listed_wishes(Seq::new(names@.len(), |i: int| names@[i]@), first as int),
{
    let mut wishes: Vec<Naming> = Vec::new();
    let mut i: usize = 0;
    while i < names.len()
        invariant
            i <= names@.len(),
            first + names@.len() <= u32::MAX,
            wishes@.len() == i,
            forall|j: int|
                0 <= j < i ==> (#[trigger] wishes@[j]).index == first + j && wishes@[j].name@
                    == names@[j]@,
        decreases names@.len() - i,
    {
        wishes.push(Naming { index: first + i as u32, name: String::from_str(names[i]) });
        i += 1;
    }
    assert(namings(wishes@) =~= listed_wishes(
        Seq::new(names@.len(), |i: int| names@[i]@),
        first as int,
    ));
    wishes
}

/// The names wished for the locals that a backward pass adds: the adjoints of the results, the
/// scratch locals, and the locals for the values that cross block boundaries.
///
/// Behind the `results` adjoints of the results stand the `vals` locals that stand for the
/// locals of the source function, the last two of which are the floating-point scratch locals,
/// and the scratch local for addresses.
pub open spec fn local_wishes(results: u32, vals: u32, stack: StackHeight, branch: StackHeight)
    -> Seq<(u32, Seq<char>)> {
    let scratch = results + vals;
    numbered_wishes("result"@, 0, results) + seq![
        ((scratch - 2) as u32, "tmp_f32"@),
        ((scratch - 1) as u32, "tmp_f64"@),
        (scratch as u32, "tmp_i32"@),
    ] + numbered_wishes("stack_f32"@, scratch + 1, stack.float32) + numbered_wishes(
        "stack_f64"@,
        scratch + 1 + stack.float32,
        stack.float64,
    ) + numbered_wishes(
        "branch_f32"@,
        scratch + 1 + stack.float32 + stack.float64,
        branch.float32,
    ) + numbered_wishes(
        "branch_f64"@,
        scratch + 1 + stack.float32 + stack.float64 + branch.float32,
        branch.float64,
    )
}

/// Whether the locals of a backward pass can be indexed with 32 bits.
pub open spec fn locals_fit(results: u32, vals: u32, stack: StackHeight, branch: StackHeight)
    -> bool {
    vals >= 2 && results + vals + 1 + stack.float32 + stack.float64 + branch.float32
        + branch.float64 <= u32::MAX
}

fn wish_locals(results: u32, vals: u32, stack: StackHeight, branch: StackHeight) -> (r: Result<
    Vec<Naming>,
    Error,
>)
    ensures
        match r {
            Ok(wishes) => locals_fit(results, vals, stack, branch) && namings(wishes@)
                == local_wishes(results, vals, stack, branch),
            Err(e) => !locals_fit(results, vals, stack, branch) && e == Error::Malformed(
                Malformed::TooLarge,
            ),
        },
{
    if vals < 2 || (results as u64) + (vals as u64) + 1 + (stack.float32 as u64) + (
    stack.float64 as u64) + (branch.float32 as u64) + (branch.float64 as u64) > u32::MAX as u64 {
        return Err(Error::Malformed(Malformed::TooLarge));
    }
    let scratch = results + vals;
    let mut wishes: Vec<Naming> = Vec::new();
    assert(namings(wishes@) =~= Seq::<(u32, Seq<char>)>::empty());
    push_numbered_wishes(&mut wishes, "result", 0, results);
    let ghost one = namings(wishes@);
    wishes.push(Naming { index: scratch - 2, name: String::from_str("tmp_f32") });
    wishes.push(Naming { index: scratch - 1, name: String::from_str("tmp_f64") });
    wishes.push(Naming { index: scratch, name: String::from_str("tmp_i32") });
    assert(namings(wishes@) =~= one + seq![
        ((scratch - 2) as u32, "tmp_f32"@),
        ((scratch - 1) as u32, "tmp_f64"@),
        (scratch as u32, "tmp_i32"@),
    ]);
    let mut first = scratch + 1;
    push_numbered_wishes(&mut wishes, "stack_f32", first, stack.float32);
    first += stack.float32;
    push_numbered_wishes(&mut wishes, "stack_f64", first, stack.float64);
    first += stack.float64;
    push_numbered_wishes(&mut wishes, "branch_f32", first, branch.float32);
    first += branch.float32;
    push_numbered_wishes(&mut wishes, "branch_f64", first, branch.float64);
    assert(namings(wishes@) =~= local_wishes(results, vals, stack, branch));
    Ok(wishes)
}

/// The local of the backward pass that holds the adjoint of a local of the source function,
/// behind the adjoints of the `results` results: one for each floating-point local of the
/// source function, in their order. An integer has none, and the three scratch locals, which
/// stand last, are no locals of the source function.
pub open spec fn adjoint_of(entries: Seq<(u32, ValType)>, results: u32, index: u32) -> Option<u32> {
    let e = entry_of(entries, index as int);
    if index < keys_upto(entries, entries.len() as int) - 3 && entries[e].1.spec_is_float() {
        Some(
            (results + vals_upto(entries, spec_type_map(), e) + (index - keys_upto(entries, e)))
                as u32,
        )
    } else {
        None
    }
}

fn adjoint_local(map: &LocalMap, results: u32, index: u32) -> (r: Option<u32>)
    requires
        map.wf(),
        map.type_map() == spec_type_map(),
        results + map.spec_count_vals() <= u32::MAX,
    ensures
        r == adjoint_of(map.entries(), results, index),
{
    let keys = map.count_keys();
    if keys < 3 || index >= keys - 3 {
        return None;
    }
    let (ty, mapped) = map.get(index);
    let ghost entries = map.entries();
    let ghost e = entry_of(entries, index as int);
    let ghost offset = index - keys_upto(entries, e);
    proof {
        assert(ty == entries[e].1);
        crate::reverse::lemma_vals_upto_step(entries, e + 1);
        crate::util::lemma_vals_upto_monotone(entries, spec_type_map(), e + 1, entries.len() as int);
        crate::util::lemma_vals_upto_monotone(entries, spec_type_map(), 0, e);
        if ty.spec_is_float() {
            assert(spec_type_map().spec_get(ty) == 1);
            assert(spec_type_map().spec_get(ty) * offset == offset) by (nonlinear_arith)
                requires
                    spec_type_map().spec_get(ty) == 1,
            ;
            assert(vals_upto(entries, spec_type_map(), e) + offset < vals_upto(
                entries,
                spec_type_map(),
                e + 1,
            ));
            assert(mapped == Some((vals_upto(entries, spec_type_map(), e) + offset) as u32));
        } else {
            assert(spec_type_map().spec_get(ty) == 0);
            assert(mapped is None);
        }
    }
    match mapped {
        // Integers disappear in the backward pass.
        None => None,
        Some(j) => Some(results + j),
    }
}

/// The names of the source function for the locals that its backward pass keeps, from the
/// first `k` names.
pub open spec fn kept_locals(
    entries: Seq<(u32, ValType)>,
    results: u32,
    names: Seq<(u32, Seq<char>)>,
    k: nat,
) -> Seq<(u32, Seq<char>)>
    decreases k,
{
    if k == 0 {
        Seq::empty()
    } else {
        let rest = kept_locals(entries, results, names, (k - 1) as nat);
        match adjoint_of(entries, results, names[k - 1].0) {
            Some(j) => rest.push((j, names[k - 1].1)),
            None => rest,
        }
    }
}

fn keep_locals(map: &LocalMap, results: u32, names: &[Naming]) -> (kept: Vec<Naming>)
    requires
        map.wf(),
        map.type_map() == spec_type_map(),
        results + map.spec_count_vals() <= u32::MAX,
    ensures
        namings(kept@) == kept_locals(map.entries(), results, namings(names@), names@.len()),
{
    let mut kept: Vec<Naming> = Vec::new();
    let mut i: usize = 0;
    assert(namings(kept@) =~= kept_locals(map.entries(), results, namings(names@), 0));
    while i < names.len()
        invariant
            i <= names@.len(),
            map.wf(),
            map.type_map() == spec_type_map(),
            results + map.spec_count_vals() <= u32::MAX,
            namings(kept@) == kept_locals(map.entries(), results, namings(names@), i as nat),
        decreases names@.len() - i,
    {
        let ghost before = namings(kept@);
        assert(namings(names@)[i as int] == (names@[i as int].index, names@[i as int].name@));
        match adjoint_local(map, results, names[i].index) {
            None => {},
            Some(j) => {
                kept.push(Naming { index: j, name: names[i].name.clone() });
                assert(namings(kept@) =~= before.push((j, names@[i as int].name@)));
            },
        }
        i += 1;
    }
    kept
}

/// What the name section needs to know of the functions of a transformed module.
pub trait FuncInfo {
    /// Whether what is known is consistent.
    spec fn inv(&self) -> bool;

    spec fn spec_num_imports(&self) -> NumImports;

    spec fn spec_num_functions(&self) -> u32;

    spec fn spec_num_types(&self) -> u32;

    spec fn spec_num_float_results(&self, funcidx: u32) -> u32;

    /// The entries of the locals of a function as the transformation counts them.
    spec fn spec_locals(&self, funcidx: u32) -> Seq<(u32, ValType)>;

    spec fn spec_stack_locals(&self, funcidx: u32) -> StackHeight;

    spec fn spec_branch_locals(&self, funcidx: u32) -> StackHeight;

    /// How many functions the source module imports.
    fn num_imports(&self) -> (r: NumImports)
        requires
            self.inv(),
        ensures
            r == self.spec_num_imports(),
    ;

    /// How many functions the source module has, the imported ones included.
    fn num_functions(&self) -> (r: u32)
        requires
            self.inv(),
        ensures
            r == self.spec_num_functions(),
    ;

    /// How many types the source module has.
    fn num_types(&self) -> (r: u32)
        requires
            self.inv(),
        ensures
            r == self.spec_num_types(),
    ;

    /// How many floating-point results a function has.
    fn num_float_results(&self, funcidx: u32) -> (r: u32)
        requires
            self.inv(),
            funcidx < self.spec_num_functions(),
        ensures
            r == self.spec_num_float_results(funcidx),
    ;

    /// The locals of a function, and the locals of its backward pass that stand for them.
    fn locals(&self, funcidx: u32) -> (r: &LocalMap)
        requires
            self.inv(),
            funcidx < self.spec_num_functions(),
        ensures
            r.wf(),
            r.type_map() == spec_type_map(),
            r.entries() == self.spec_locals(funcidx),
    ;

    /// How many locals the backward pass of a function has for the values below the branch
    /// values.
    fn stack_locals(&self, funcidx: u32) -> (r: StackHeight)
        requires
            self.inv(),
            funcidx < self.spec_num_functions(),
        ensures
            r == self.spec_stack_locals(funcidx),
    ;

    /// How many locals the backward pass of a function has for the branch values.
    fn branch_locals(&self, funcidx: u32) -> (r: StackHeight)
        requires
            self.inv(),
            funcidx < self.spec_num_functions(),
        ensures
            r == self.spec_branch_locals(funcidx),
    ;
}

/// The types of a module and what a transformation kept of each of its functions.
pub struct ModuleInfo<'a> {
    pub type_sigs: &'a FuncTypes,
    pub num_imports: NumImports,
    pub infos: &'a [FunctionInfo],
}

impl<'a> FuncInfo for ModuleInfo<'a> {
    open spec fn inv(&self) -> bool {
        &&& self.type_sigs.wf()
        &&& self.infos@.len() <= u32::MAX
        &&& forall|f: int|
            0 <= f < self.infos@.len() ==> {
                &&& (#[trigger] self.infos@[f]).typeidx < self.type_sigs@.len()
                &&& self.infos@[f].locals.wf()
                &&& self.infos@[f].locals.type_map() == spec_type_map()
            }
    }

    open spec fn spec_num_imports(&self) -> NumImports {
        self.num_imports
    }

    open spec fn spec_num_functions(&self) -> u32 {
        self.infos@.len() as u32
    }

    open spec fn spec_num_types(&self) -> u32 {
        self.type_sigs@.len() as u32
    }

    open spec fn spec_num_float_results(&self, funcidx: u32) -> u32 {
        float_count(self.type_sigs@[self.infos@[funcidx as int].typeidx as int].1) as u32
    }

    open spec fn spec_locals(&self, funcidx: u32) -> Seq<(u32, ValType)> {
        self.infos@[funcidx as int].locals.entries()
    }

    open spec fn spec_stack_locals(&self, funcidx: u32) -> StackHeight {
        self.infos@[funcidx as int].stack_locals
    }

    open spec fn spec_branch_locals(&self, funcidx: u32) -> StackHeight {
        self.infos@[funcidx as int].branch_locals
    }

    fn num_imports(&self) -> (r: NumImports) {
        self.num_imports
    }

    fn num_functions(&self) -> (r: u32) {
        self.infos.len() as u32
    }

    fn num_types(&self) -> (r: u32) {
        self.type_sigs.len()
    }

    fn num_float_results(&self, funcidx: u32) -> (r: u32) {
        num_floats(self.type_sigs.results(self.infos[funcidx as usize].typeidx))
    }

    fn locals(&self, funcidx: u32) -> (r: &LocalMap) {
        &self.infos[funcidx as usize].locals
    }

    fn stack_locals(&self, funcidx: u32) -> (r: StackHeight) {
        self.infos[funcidx as usize].stack_locals
    }

    fn branch_locals(&self, funcidx: u32) -> (r: StackHeight) {
        self.infos[funcidx as usize].branch_locals
    }
}

/// The names of the locals of a function: of a list of such names, the indices of the functions
/// and the names of their locals.
pub open spec fn indirect(list: Seq<IndirectNaming>) -> Seq<(u32, Seq<(u32, Seq<char>)>)> {
    Seq::new(list.len(), |i: int| (list[i].index, namings(list[i].names@)))
}

/// The names that the source module gives to the locals of a function, among the first `k`
/// entries: those of the last entry for the function, and none if there is no entry.
pub open spec fn source_locals(
    locals: Seq<(u32, Seq<(u32, Seq<char>)>)>,
    funcidx: u32,
    k: nat,
) -> Seq<(u32, Seq<char>)>
    decreases k,
{
    if k == 0 {
        Seq::empty()
    } else if locals[k - 1].0 == funcidx {
        locals[k - 1].1
    } else {
        source_locals(locals, funcidx, (k - 1) as nat)
    }
}

fn find_locals<'a>(locals: &'a [IndirectNaming], funcidx: u32) -> (r: Option<&'a Vec<Naming>>)
    ensures
        match r {
            Some(names) => namings(names@) == source_locals(
                indirect(locals@),
                funcidx,
                locals@.len(),
            ),
            None => source_locals(indirect(locals@), funcidx, locals@.len()) == Seq::<
                (u32, Seq<char>),
            >::empty(),
        },
{
    let mut found: Option<&'a Vec<Naming>> = None;
    let mut i: usize = 0;
    while i < locals.len()
        invariant
            i <= locals@.len(),
            match found {
                Some(names) => namings(names@) == source_locals(
                    indirect(locals@),
                    funcidx,
                    i as nat,
                ),
                None => source_locals(indirect(locals@), funcidx, i as nat) == Seq::<
                    (u32, Seq<char>),
                >::empty(),
            },
        decreases locals@.len() - i,
    {
        if locals[i].index == funcidx {
            found = Some(&locals[i].names);
        }
        i += 1;
    }
    found
}

/// The names of the locals of a backward pass: the names of the source function for the locals
/// that stand for its floating-point locals, and names like them for the locals that the
/// backward pass adds.
pub open spec fn backward_locals(
    entries: Seq<(u32, ValType)>,
    results: u32,
    stack: StackHeight,
    branch: StackHeight,
    source: Seq<(u32, Seq<char>)>,
) -> Result<Seq<(u32, Seq<char>)>, Error> {
    let vals = vals_upto(entries, spec_type_map(), entries.len() as int);
    if vals > u32::MAX || !locals_fit(results, vals as u32, stack, branch) {
        Err(Error::Malformed(Malformed::TooLarge))
    } else {
        Ok(
            kept_locals(entries, results, source, source.len()) + granted(
                read(source),
                local_wishes(results, vals as u32, stack, branch),
            ),
        )
    }
}

fn name_locals(
    map: &LocalMap,
    results: u32,
    stack: StackHeight,
    branch: StackHeight,
    source: &[Naming],
) -> (r: Result<Vec<Naming>, Error>)
    requires
        map.wf(),
        map.type_map() == spec_type_map(),
    ensures
        match backward_locals(map.entries(), results, stack, branch, namings(source@)) {
            Ok(names) => r is Ok && namings(r->Ok_0@) == names,
            Err(e) => r == Err::<Vec<Naming>, Error>(e),
        },
{
    let wishes = match wish_locals(results, map.count_vals(), stack, branch) {
        Ok(wishes) => wishes,
        Err(e) => {
            return Err(e);
        },
    };
    let mut names = keep_locals(map, results, source);
    let mut set = NameSet::new();
    collect(&mut set, source);
    let mut used = set.done();
    let mut given = generate(&mut used, wishes.as_slice());
    let ghost kept = namings(names@);
    names.append(&mut given);
    assert(namings(names@) =~= kept + granted(read(namings(source@)), namings(wishes@)));
    Ok(names)
}

/// What the name section needs to know of one function.
pub struct FuncFacts {
    /// The number of its floating-point results.
    pub results: u32,
    /// The entries of its locals as the transformation counts them.
    pub entries: Seq<(u32, ValType)>,
    pub stack_locals: StackHeight,
    pub branch_locals: StackHeight,
}

/// What is known of the function `funcidx`.
pub open spec fn facts_of<I: FuncInfo>(info: &I, funcidx: u32) -> FuncFacts {
    FuncFacts {
        results: info.spec_num_float_results(funcidx),
        entries: info.spec_locals(funcidx),
        stack_locals: info.spec_stack_locals(funcidx),
        branch_locals: info.spec_branch_locals(funcidx),
    }
}

/// What is known of every function.
pub open spec fn facts<I: FuncInfo>(info: &I) -> Seq<FuncFacts> {
    Seq::new(info.spec_num_functions() as nat, |f: int| facts_of(info, f as u32))
}

/// The names of the locals of the forward passes, from the first `k` entries of the source
/// module: the names that the source module gives to the locals of the functions that it
/// defines.
pub open spec fn forward_locals(
    locals: Seq<(u32, Seq<(u32, Seq<char>)>)>,
    num_imports: u32,
    num_functions: u32,
    k: nat,
) -> Seq<(u32, Seq<(u32, Seq<char>)>)>
    decreases k,
{
    if k == 0 {
        Seq::empty()
    } else {
        let rest = forward_locals(locals, num_imports, num_functions, (k - 1) as nat);
        let (funcidx, names) = locals[k - 1];
        if num_imports <= funcidx < num_functions && doubled(
            funcidx,
            OFFSET_FUNCTIONS,
            num_imports,
        ) <= u32::MAX {
            rest.push((doubled(funcidx, OFFSET_FUNCTIONS, num_imports) as u32, names))
        } else {
            rest
        }
    }
}

/// The names of the locals of the backward passes of the functions from `num_imports` up to
/// `k`, or the first error on the way.
pub open spec fn backward_locals_of(
    functions: Seq<FuncFacts>,
    locals: Seq<(u32, Seq<(u32, Seq<char>)>)>,
    num_imports: u32,
    k: nat,
) -> Result<Seq<(u32, Seq<(u32, Seq<char>)>)>, Error>
    decreases k,
{
    if k <= num_imports {
        Ok(Seq::empty())
    } else {
        match backward_locals_of(functions, locals, num_imports, (k - 1) as nat) {
            Err(e) => Err(e),
            Ok(rest) => {
                let funcidx = (k - 1) as u32;
                let function = functions[k - 1];
                if doubled(funcidx, OFFSET_FUNCTIONS, num_imports) + 1 > u32::MAX {
                    Err(Error::Malformed(Malformed::TooLarge))
                } else {
                    match backward_locals(
                        function.entries,
                        function.results,
                        function.stack_locals,
                        function.branch_locals,
                        source_locals(locals, funcidx, locals.len()),
                    ) {
                        Err(e) => Err(e),
                        Ok(names) => Ok(
                            rest.push(
                                (
                                    (doubled(funcidx, OFFSET_FUNCTIONS, num_imports) + 1) as u32,
                                    names,
                                ),
                            ),
                        ),
                    }
                }
            },
        }
    }
}

pub proof fn lemma_backward_locals_err(
    functions: Seq<FuncFacts>,
    locals: Seq<(u32, Seq<(u32, Seq<char>)>)>,
    num_imports: u32,
    k: nat,
    n: nat,
)
    requires
        k <= n,
        backward_locals_of(functions, locals, num_imports, k) is Err,
    ensures
        backward_locals_of(functions, locals, num_imports, n) == backward_locals_of(
            functions,
            locals,
            num_imports,
            k,
        ),
    decreases n,
{
    if k < n {
        lemma_backward_locals_err(functions, locals, num_imports, k, (n - 1) as nat);
    }
}

/// Name the locals of the two passes of every function that the source module defines.
pub fn local_names<I: FuncInfo>(info: &I, locals: &[IndirectNaming]) -> (r: Result<
    Vec<IndirectNaming>,
    Error,
>)
    requires
        info.inv(),
        info.spec_num_imports().func <= info.spec_num_functions(),
    ensures
        match backward_locals_of(
            facts(info),
            indirect(locals@),
            info.spec_num_imports().func,
            info.spec_num_functions() as nat,
        ) {
            Ok(backward) => r is Ok && indirect(r->Ok_0@) == forward_locals(
                indirect(locals@),
                info.spec_num_imports().func,
                info.spec_num_functions(),
                locals@.len(),
            ) + backward,
            Err(e) => r == Err::<Vec<IndirectNaming>, Error>(e),
        },
{
    let num_imports = info.num_imports().func;
    let num_functions = info.num_functions();
    let ghost source = indirect(locals@);
    let mut out: Vec<IndirectNaming> = Vec::new();
    let mut i: usize = 0;
    assert(indirect(out@) =~= forward_locals(source, num_imports, num_functions, 0));
    while i < locals.len()
        invariant
            i <= locals@.len(),
            source == indirect(locals@),
            indirect(out@) == forward_locals(source, num_imports, num_functions, i as nat),
        decreases locals@.len() - i,
    {
        let funcidx = locals[i].index;
        let ghost before = indirect(out@);
        assert(source[i as int] == (funcidx, namings(locals@[i as int].names@)));
        if num_imports <= funcidx && funcidx < num_functions && 2 * (funcidx as u64)
            + OFFSET_FUNCTIONS as u64 <= u32::MAX as u64 {
            out.push(
                IndirectNaming {
                    index: 2 * funcidx + OFFSET_FUNCTIONS,
                    names: copy(locals[i].names.as_slice()),
                },
            );
            assert(indirect(out@) =~= before.push(
                ((2 * funcidx + OFFSET_FUNCTIONS) as u32, namings(locals@[i as int].names@)),
            ));
        }
        i += 1;
    }
    let ghost forward = indirect(out@);
    let ghost functions = facts(info);
    let mut funcidx: u32 = num_imports;
    assert(indirect(out@) =~= forward + Seq::<(u32, Seq<(u32, Seq<char>)>)>::empty());
    while funcidx < num_functions
        invariant
            num_imports <= funcidx <= num_functions,
            info.inv(),
            num_imports == info.spec_num_imports().func,
            num_functions == info.spec_num_functions(),
            source == indirect(locals@),
            functions == facts(info),
            backward_locals_of(functions, source, num_imports, funcidx as nat) is Ok,
            indirect(out@) == forward + backward_locals_of(
                functions,
                source,
                num_imports,
                funcidx as nat,
            )->Ok_0,
        decreases num_functions - funcidx,
    {
        let ghost before = indirect(out@);
        assert(functions[funcidx as int] == facts_of(info, funcidx));
        if 2 * (funcidx as u64) + OFFSET_FUNCTIONS as u64 + 1 > u32::MAX as u64 {
            proof {
                lemma_backward_locals_err(
                    functions,
                    source,
                    num_imports,
                    (funcidx + 1) as nat,
                    num_functions as nat,
                );
            }
            return Err(Error::Malformed(Malformed::TooLarge));
        }
        let none: Vec<Naming> = Vec::new();
        let named = match find_locals(locals, funcidx) {
            Some(names) => names,
            None => {
                assert(namings(none@) =~= Seq::<(u32, Seq<char>)>::empty());
                &none
            },
        };
        let names = match name_locals(
            info.locals(funcidx),
            info.num_float_results(funcidx),
            info.stack_locals(funcidx),
            info.branch_locals(funcidx),
            named.as_slice(),
        ) {
            Ok(names) => names,
            Err(e) => {
                proof {
                    lemma_backward_locals_err(
                        functions,
                        source,
                        num_imports,
                        (funcidx + 1) as nat,
                        num_functions as nat,
                    );
                }
                return Err(e);
            },
        };
        let ghost given = namings(names@);
        out.push(IndirectNaming { index: 2 * funcidx + OFFSET_FUNCTIONS + 1, names });
        assert(indirect(out@) =~= before.push(((2 * funcidx + OFFSET_FUNCTIONS + 1) as u32, given)));
        funcidx += 1;
    }
    Ok(out)
}

/// The subsections of a name section that the transformations read, each where it is there.
pub struct Picked {
    pub module: Option<Seq<char>>,
    pub functions: Option<Seq<(u32, Seq<char>)>>,
    pub locals: Option<Seq<(u32, Seq<(u32, Seq<char>)>)>>,
    pub types: Option<Seq<(u32, Seq<char>)>>,
    pub memories: Option<Seq<(u32, Seq<char>)>>,
    pub globals: Option<Seq<(u32, Seq<char>)>>,
}

/// No subsection.
pub open spec fn nothing() -> Picked {
    Picked { module: None, functions: None, locals: None, types: None, memories: None, globals: None }
}

/// What is picked with one more subsection, which must be the first of its kind.
pub open spec fn pick_one(picked: Picked, name: Name) -> Result<Picked, Error> {
    let twice = Err::<Picked, Error>(Error::Malformed(Malformed::NameSection));
    match name {
        Name::Module(module) => if picked.module is Some {
            twice
        } else {
            Ok(Picked { module: Some(module@), ..picked })
        },
        Name::Function(list) => if picked.functions is Some {
            twice
        } else {
            Ok(Picked { functions: Some(namings(list@)), ..picked })
        },
        Name::Local(list) => if picked.locals is Some {
            twice
        } else {
            Ok(Picked { locals: Some(indirect(list@)), ..picked })
        },
        Name::Type(list) => if picked.types is Some {
            twice
        } else {
            Ok(Picked { types: Some(namings(list@)), ..picked })
        },
        Name::Memory(list) => if picked.memories is Some {
            twice
        } else {
            Ok(Picked { memories: Some(namings(list@)), ..picked })
        },
        Name::Global(list) => if picked.globals is Some {
            twice
        } else {
            Ok(Picked { globals: Some(namings(list@)), ..picked })
        },
        Name::Other => Ok(picked),
    }
}

/// What is picked from the first `k` subsections, or the first error on the way.
pub open spec fn pick(source: Seq<Name>, k: nat) -> Result<Picked, Error>
    decreases k,
{
    if k == 0 {
        Ok(nothing())
    } else {
        match pick(source, (k - 1) as nat) {
            Err(e) => Err(e),
            Ok(picked) => pick_one(picked, source[k - 1]),
        }
    }
}

pub proof fn lemma_pick_err(source: Seq<Name>, k: nat, n: nat)
    requires
        k <= n,
        pick(source, k) is Err,
    ensures
        pick(source, n) == pick(source, k),
    decreases n,
{
    if k < n {
        lemma_pick_err(source, k, (n - 1) as nat);
    }
}

/// The list, or the empty list where there is none.
pub open spec fn or_empty<T>(list: Option<Seq<T>>) -> Seq<T> {
    match list {
        Some(list) => list,
        None => Seq::empty(),
    }
}

/// The names of a source module for the items of a transformed module that stand behind
/// `offset` more items.
pub open spec fn shifted(list: Seq<(u32, Seq<char>)>, offset: u32) -> Seq<(u32, Seq<char>)> {
    Seq::new(list.len(), |i: int| ((list[i].0 + offset) as u32, list[i].1))
}

/// Whether the shifted indices fit in 32 bits.
pub open spec fn shifts_fit(list: Seq<(u32, Seq<char>)>, offset: u32) -> bool {
    forall|i: int| 0 <= i < list.len() ==> (#[trigger] list[i]).0 + offset <= u32::MAX
}

fn shift(list: &[Naming], offset: u32) -> (r: Result<Vec<Naming>, Error>)
    ensures
        match r {
            Ok(names) => shifts_fit(namings(list@), offset) && namings(names@) == shifted(
                namings(list@),
                offset,
            ),
            Err(e) => !shifts_fit(namings(list@), offset) && e == Error::Malformed(
                Malformed::TooLarge,
            ),
        },
{
    let ghost source = namings(list@);
    let mut names: Vec<Naming> = Vec::new();
    let mut i: usize = 0;
    while i < list.len()
        invariant
            i <= list@.len(),
            source == namings(list@),
            names@.len() == i,
            forall|j: int| 0 <= j < i ==> (#[trigger] source[j]).0 + offset <= u32::MAX,
            forall|j: int|
                0 <= j < i ==> (#[trigger] names@[j]).index == source[j].0 + offset
                    && names@[j].name@ == source[j].1,
        decreases list@.len() - i,
    {
        let index = list[i].index;
        assert(source[i as int].0 == index);
        if index > u32::MAX - offset {
            return Err(Error::Malformed(Malformed::TooLarge));
        }
        names.push(Naming { index: index + offset, name: list[i].name.clone() });
        i += 1;
    }
    assert(namings(names@) =~= shifted(source, offset));
    Ok(names)
}

/// The names of a source module, taken over for the transformed module, and for each kind of
/// item the names that are in use.
pub struct Names {
    module: Option<String>,
    function_map: Vec<Naming>,
    function_gen: NameGen,
    locals: Vec<IndirectNaming>,
    types_map: Vec<Naming>,
    types_gen: NameGen,
    memories_map: Vec<Naming>,
    memories_gen: NameGen,
    globals_map: Vec<Naming>,
    globals_gen: NameGen,
}

/// What a [`Names`] holds.
pub struct NamesView {
    pub module: Option<Seq<char>>,
    pub functions: Seq<(u32, Seq<char>)>,
    pub functions_used: Used,
    /// The names that the source module gives to locals.
    pub locals: Seq<(u32, Seq<(u32, Seq<char>)>)>,
    pub types: Seq<(u32, Seq<char>)>,
    pub types_used: Used,
    pub memories: Seq<(u32, Seq<char>)>,
    pub memories_used: Used,
    pub globals: Seq<(u32, Seq<char>)>,
    pub globals_used: Used,
}

/// The names taken over from the subsections of a source module that imports `num_imports`
/// functions, or why they cannot be taken over.
///
/// Functions, types and memories have doubled, so each name of the source module is followed
/// by a name like it for the counterpart.
pub open spec fn spec_names(num_imports: u32, source: Seq<Name>) -> Result<NamesView, Error> {
    let large = Err::<NamesView, Error>(Error::Malformed(Malformed::TooLarge));
    match pick(source, source.len()) {
        Err(e) => Err(e),
        Ok(picked) => {
            let functions = or_empty(picked.functions);
            let types = or_empty(picked.types);
            let memories = or_empty(picked.memories);
            let globals = or_empty(picked.globals);
            if !doubles_fit(functions, OFFSET_FUNCTIONS, num_imports) {
                large
            } else if !doubles_fit(types, 0, 0) {
                large
            } else if !doubles_fit(memories, OFFSET_MEMORIES, 0) {
                large
            } else if !shifts_fit(globals, OFFSET_GLOBALS) {
                large
            } else {
                Ok(
                    NamesView {
                        module: picked.module,
                        functions: mirrored(functions, OFFSET_FUNCTIONS, num_imports),
                        functions_used: mirrored_used(functions, OFFSET_FUNCTIONS, num_imports),
                        locals: or_empty(picked.locals),
                        types: mirrored(types, 0, 0),
                        types_used: mirrored_used(types, 0, 0),
                        memories: mirrored(memories, OFFSET_MEMORIES, 0),
                        memories_used: mirrored_used(memories, OFFSET_MEMORIES, 0),
                        globals: shifted(globals, OFFSET_GLOBALS),
                        globals_used: read(globals),
                    },
                )
            }
        },
    }
}

impl View for Names {
    type V = NamesView;

    closed spec fn view(&self) -> NamesView {
        NamesView {
            module: match self.module {
                Some(module) => Some(module@),
                None => None,
            },
            functions: namings(self.function_map@),
            functions_used: self.function_gen@,
            locals: indirect(self.locals@),
            types: namings(self.types_map@),
            types_used: self.types_gen@,
            memories: namings(self.memories_map@),
            memories_used: self.memories_gen@,
            globals: namings(self.globals_map@),
            globals_used: self.globals_gen@,
        }
    }
}

/// Copy a list of the names of locals.
fn copy_locals(list: &[IndirectNaming]) -> (r: Vec<IndirectNaming>)
    ensures
        indirect(r@) == indirect(list@),
{
    let mut out: Vec<IndirectNaming> = Vec::new();
    let mut i: usize = 0;
    while i < list.len()
        invariant
            i <= list@.len(),
            out@.len() == i,
            forall|j: int|
                0 <= j < i ==> (#[trigger] out@[j]).index == list@[j].index && namings(
                    out@[j].names@,
                ) == namings(list@[j].names@),
        decreases list@.len() - i,
    {
        out.push(IndirectNaming { index: list[i].index, names: copy(list[i].names.as_slice()) });
        i += 1;
    }
    assert(indirect(out@) =~= indirect(list@));
    out
}

/// The subsections as they are found, each at most once.
struct Found<'a> {
    module: Option<&'a String>,
    functions: Option<&'a Vec<Naming>>,
    locals: Option<&'a Vec<IndirectNaming>>,
    types: Option<&'a Vec<Naming>>,
    memories: Option<&'a Vec<Naming>>,
    globals: Option<&'a Vec<Naming>>,
}

impl<'a> View for Found<'a> {
    type V = Picked;

    closed spec fn view(&self) -> Picked {
        Picked {
            module: match self.module {
                Some(module) => Some(module@),
                None => None,
            },
            functions: match self.functions {
                Some(list) => Some(namings(list@)),
                None => None,
            },
            locals: match self.locals {
                Some(list) => Some(indirect(list@)),
                None => None,
            },
            types: match self.types {
                Some(list) => Some(namings(list@)),
                None => None,
            },
            memories: match self.memories {
                Some(list) => Some(namings(list@)),
                None => None,
            },
            globals: match self.globals {
                Some(list) => Some(namings(list@)),
                None => None,
            },
        }
    }
}

fn find<'a>(source: &'a [Name]) -> (r: Result<Found<'a>, Error>)
    ensures
        match pick(source@, source@.len()) {
            Ok(picked) => r is Ok && r->Ok_0@ == picked,
            Err(e) => r == Err::<Found, Error>(e),
        },
{
    let mut found = Found {
        module: None,
        functions: None,
        locals: None,
        types: None,
        memories: None,
        globals: None,
    };
    let mut i: usize = 0;
    while i < source.len()
        invariant
            i <= source@.len(),
            pick(source@, i as nat) == Ok::<Picked, Error>(found@),
        decreases source@.len() - i,
    {
        let ghost next = pick_one(found@, source@[i as int]);
        let twice = match &source[i] {
            Name::Module(module) => {
                let twice = found.module.is_some();
                found.module = Some(module);
                twice
            },
            Name::Function(list) => {
                let twice = found.functions.is_some();
                found.functions = Some(list);
                twice
            },
            Name::Local(list) => {
                let twice = found.locals.is_some();
                found.locals = Some(list);
                twice
            },
            Name::Type(list) => {
                let twice = found.types.is_some();
                found.types = Some(list);
                twice
            },
            Name::Memory(list) => {
                let twice = found.memories.is_some();
                found.memories = Some(list);
                twice
            },
            Name::Global(list) => {
                let twice = found.globals.is_some();
                found.globals = Some(list);
                twice
            },
            Name::Other => false,
        };
        if twice {
            proof {
                lemma_pick_err(source@, (i + 1) as nat, source@.len());
            }
            return Err(Error::Malformed(Malformed::NameSection));
        }
        i += 1;
    }
    Ok(found)
}

impl Names {
    /// Whether the names in use are well formed.
    pub closed spec fn wf(&self) -> bool {
        &&& self.function_gen.wf()
        &&& self.types_gen.wf()
        &&& self.memories_gen.wf()
        &&& self.globals_gen.wf()
    }

    /// Take over the names of a source module.
    pub fn new<I: FuncInfo>(functions: &I, source: &[Name]) -> (r: Result<Names, Error>)
        requires
            functions.inv(),
        ensures
            match spec_names(functions.spec_num_imports().func, source@) {
                Ok(names) => r is Ok && r->Ok_0.wf() && r->Ok_0@ == names,
                Err(e) => r == Err::<Names, Error>(e),
            },
    {
        let num_imports = functions.num_imports().func;
        let found = match find(source) {
            Ok(found) => found,
            Err(e) => {
                return Err(e);
            },
        };
        let none: Vec<Naming> = Vec::new();
        assert(namings(none@) =~= Seq::<(u32, Seq<char>)>::empty());
        let (function_map, function_gen) = match mirror(
            match found.functions {
                Some(list) => list.as_slice(),
                None => none.as_slice(),
            },
            OFFSET_FUNCTIONS,
            num_imports,
        ) {
            Ok(done) => done,
            Err(e) => {
                return Err(e);
            },
        };
        let (types_map, types_gen) = match mirror(
            match found.types {
                Some(list) => list.as_slice(),
                None => none.as_slice(),
            },
            0,
            0,
        ) {
            Ok(done) => done,
            Err(e) => {
                return Err(e);
            },
        };
        let (memories_map, memories_gen) = match mirror(
            match found.memories {
                Some(list) => list.as_slice(),
                None => none.as_slice(),
            },
            OFFSET_MEMORIES,
            0,
        ) {
            Ok(done) => done,
            Err(e) => {
                return Err(e);
            },
        };
        let globals = match found.globals {
            Some(list) => list.as_slice(),
            None => none.as_slice(),
        };
        let globals_map = match shift(globals, OFFSET_GLOBALS) {
            Ok(done) => done,
            Err(e) => {
                return Err(e);
            },
        };
        let mut global_names = NameSet::new();
        collect(&mut global_names, globals);
        let locals = match found.locals {
            Some(list) => copy_locals(list.as_slice()),
            None => {
                let locals: Vec<IndirectNaming> = Vec::new();
                assert(indirect(locals@) =~= Seq::<(u32, Seq<(u32, Seq<char>)>)>::empty());
                locals
            },
        };
        Ok(
            Names {
                module: match found.module {
                    Some(module) => Some(module.clone()),
                    None => None,
                },
                function_map,
                function_gen,
                locals,
                types_map,
                types_gen,
                memories_map,
                memories_gen,
                globals_map,
                globals_gen: global_names.done(),
            },
        )
    }
}

/// The names of a transformed module, by the kind of what they name.
pub struct NameSection {
    pub module: Option<String>,
    pub functions: Vec<Naming>,
    pub locals: Vec<IndirectNaming>,
    pub types: Vec<Naming>,
    pub memories: Vec<Naming>,
    pub globals: Vec<Naming>,
}

/// What a [`NameSection`] holds.
pub struct NameSectionView {
    pub module: Option<Seq<char>>,
    pub functions: Seq<(u32, Seq<char>)>,
    pub locals: Seq<(u32, Seq<(u32, Seq<char>)>)>,
    pub types: Seq<(u32, Seq<char>)>,
    pub memories: Seq<(u32, Seq<char>)>,
    pub globals: Seq<(u32, Seq<char>)>,
}

impl View for NameSection {
    type V = NameSectionView;

    open spec fn view(&self) -> NameSectionView {
        NameSectionView {
            module: match self.module {
                Some(module) => Some(module@),
                None => None,
            },
            functions: namings(self.functions@),
            locals: indirect(self.locals@),
            types: namings(self.types@),
            memories: namings(self.memories@),
            globals: namings(self.globals@),
        }
    }
}

/// The names of the helper functions, which are the same wherever the helper types begin.
pub open spec fn helper_function_names() -> Seq<Seq<char>> {
    Seq::new(OFFSET_FUNCTIONS as nat, |i: int| crate::helper::spec_helper_function(0, i).0)
}

/// The names of the helper types.
pub open spec fn helper_type_names() -> Seq<Seq<char>> {
    Seq::new(OFFSET_TYPES as nat, |i: int| crate::helper::spec_helper_type(i).0)
}

/// The names of the tapes.
pub open spec fn tape_names() -> Seq<Seq<char>> {
    Seq::new(OFFSET_MEMORIES as nat, |i: int| crate::helper::spec_tape_name(i))
}

/// No names of a source module.
pub open spec fn no_names() -> NamesView {
    NamesView {
        module: None,
        functions: Seq::empty(),
        functions_used: Map::empty(),
        locals: Seq::empty(),
        types: Seq::empty(),
        types_used: Map::empty(),
        memories: Seq::empty(),
        memories_used: Map::empty(),
        globals: Seq::empty(),
        globals_used: Map::empty(),
    }
}

/// The names of a transformed module whose source module has `num_types` types, or why they
/// cannot be given.
///
/// Behind the names taken over from the source module come the names of the helpers, and the
/// locals of every backward pass have names. Each name that is not from the source module is
/// given as a wish, so that it differs from the names in use.
pub open spec fn spec_name_section(
    functions: Seq<FuncFacts>,
    num_imports: u32,
    num_types: u32,
    names: NamesView,
) -> Result<NameSectionView, Error> {
    if 2 * num_imports + OFFSET_FUNCTIONS > u32::MAX || num_imports > functions.len()
        || functions.len() > u32::MAX || 2 * num_types + OFFSET_TYPES > u32::MAX {
        Err(Error::Malformed(Malformed::TooLarge))
    } else {
        match backward_locals_of(functions, names.locals, num_imports, functions.len()) {
            Err(e) => Err(e),
            Ok(backward) => Ok(
                NameSectionView {
                    module: names.module,
                    functions: names.functions + granted(
                        names.functions_used,
                        listed_wishes(helper_function_names(), 2 * num_imports),
                    ),
                    locals: forward_locals(
                        names.locals,
                        num_imports,
                        functions.len() as u32,
                        names.locals.len(),
                    ) + backward,
                    types: names.types + granted(
                        names.types_used,
                        listed_wishes(helper_type_names(), 2 * num_types),
                    ),
                    memories: names.memories + granted(
                        names.memories_used,
                        listed_wishes(tape_names(), 0),
                    ),
                    globals: names.globals + granted(
                        names.globals_used,
                        listed_wishes(tape_names(), 0),
                    ),
                },
            ),
        }
    }
}

impl Names {
    /// No names of a source module.
    pub fn empty() -> (r: Names)
        ensures
            r.wf(),
            r@ == no_names(),
    {
        let r = Names {
            module: None,
            function_map: Vec::new(),
            function_gen: NameGen::new(),
            locals: Vec::new(),
            types_map: Vec::new(),
            types_gen: NameGen::new(),
            memories_map: Vec::new(),
            memories_gen: NameGen::new(),
            globals_map: Vec::new(),
            globals_gen: NameGen::new(),
        };
        assert(r@.functions =~= Seq::empty());
        assert(r@.locals =~= Seq::empty());
        assert(r@.types =~= Seq::empty());
        assert(r@.memories =~= Seq::empty());
        assert(r@.globals =~= Seq::empty());
        r
    }
}

/// Add names for helpers behind the names of a list.
fn name_helpers(list: &mut Vec<Naming>, used: &mut NameGen, wishes: Vec<Naming>)
    requires
        old(used).wf(),
    ensures
        namings(final(list)@) == namings(old(list)@) + granted(old(used)@, namings(wishes@)),
{
    let mut given = generate(used, wishes.as_slice());
    let ghost before = namings(list@);
    list.append(&mut given);
    assert(namings(list@) =~= before + granted(old(used)@, namings(wishes@)));
}

/// The names of the helper functions, of the helper types and of the tapes.
fn helper_names() -> (r: (Vec<&'static str>, Vec<&'static str>, Vec<&'static str>))
    ensures
        Seq::new(r.0@.len(), |i: int| r.0@[i]@) == helper_function_names(),
        Seq::new(r.1@.len(), |i: int| r.1@[i]@) == helper_type_names(),
        Seq::new(r.2@.len(), |i: int| r.2@[i]@) == tape_names(),
{
    let functions = crate::helper::helper_functions(0);
    let mut function_names: Vec<&'static str> = Vec::new();
    let mut i: usize = 0;
    while i < functions.len()
        invariant
            i <= functions@.len() == OFFSET_FUNCTIONS,
            function_names@.len() == i,
            forall|j: int|
                0 <= j < OFFSET_FUNCTIONS ==> (#[trigger] functions@[j]).0@
                    == crate::helper::spec_helper_function(0, j).0,
            forall|j: int|
                0 <= j < i ==> (#[trigger] function_names@[j])@
                    == crate::helper::spec_helper_function(0, j).0,
        decreases functions@.len() - i,
    {
        function_names.push(functions[i].0);
        i += 1;
    }
    let types = crate::helper::helper_types();
    let mut type_names: Vec<&'static str> = Vec::new();
    let mut i: usize = 0;
    while i < types.len()
        invariant
            i <= types@.len() == OFFSET_TYPES,
            type_names@.len() == i,
            forall|j: int|
                0 <= j < OFFSET_TYPES ==> (#[trigger] types@[j]).0@
                    == crate::helper::spec_helper_type(j).0,
            forall|j: int|
                0 <= j < i ==> (#[trigger] type_names@[j])@ == crate::helper::spec_helper_type(
                    j,
                ).0,
        decreases types@.len() - i,
    {
        type_names.push(types[i].0);
        i += 1;
    }
    let memories = crate::helper::helper_memories();
    let mut tapes: Vec<&'static str> = Vec::new();
    tapes.push(memories[0].0);
    tapes.push(memories[1].0);
    tapes.push(memories[2].0);
    assert(Seq::new(function_names@.len(), |i: int| function_names@[i]@)
        =~= helper_function_names());
    assert(Seq::new(type_names@.len(), |i: int| type_names@[i]@) =~= helper_type_names());
    assert(Seq::new(tapes@.len(), |i: int| tapes@[i]@) =~= tape_names());
    (function_names, type_names, tapes)
}

/// Name what a transformed module holds: what the source module named, its counterparts, the
/// helpers, and the locals of the backward passes.
pub fn name_section<I: FuncInfo>(functions: &I, names: Option<Names>) -> (r: Result<
    NameSection,
    Error,
>)
    requires
        functions.inv(),
        names matches Some(names) ==> names.wf(),
    ensures
        match spec_name_section(
            facts(functions),
            functions.spec_num_imports().func,
            functions.spec_num_types(),
            match names {
                Some(names) => names@,
                None => no_names(),
            },
        ) {
            Ok(section) => r is Ok && r->Ok_0@ == section,
            Err(e) => r == Err::<NameSection, Error>(e),
        },
{
    let names = match names {
        Some(names) => names,
        None => Names::empty(),
    };
    let num_imports = functions.num_imports().func;
    let num_types = functions.num_types();
    if num_imports > (u32::MAX - OFFSET_FUNCTIONS) / 2 || num_imports > functions.num_functions()
        || num_types > (u32::MAX - OFFSET_TYPES) / 2 {
        return Err(Error::Malformed(Malformed::TooLarge));
    }
    let Names {
        module,
        mut function_map,
        mut function_gen,
        locals,
        mut types_map,
        mut types_gen,
        mut memories_map,
        mut memories_gen,
        mut globals_map,
        mut globals_gen,
    } = names;
    let locals = match local_names(functions, locals.as_slice()) {
        Ok(locals) => locals,
        Err(e) => {
            return Err(e);
        },
    };
    let (function_names, type_names, tapes) = helper_names();
    name_helpers(
        &mut function_map,
        &mut function_gen,
        listed(function_names.as_slice(), 2 * num_imports),
    );
    name_helpers(&mut types_map, &mut types_gen, listed(type_names.as_slice(), 2 * num_types));
    name_helpers(&mut memories_map, &mut memories_gen, listed(tapes.as_slice(), 0));
    name_helpers(&mut globals_map, &mut globals_gen, listed(tapes.as_slice(), 0));
    Ok(
        NameSection {
            module,
            functions: function_map,
            locals,
            types: types_map,
            memories: memories_map,
            globals: globals_map,
        },
    )
}

/// The too large error.
pub open spec fn too_large<T>() -> Result<T, Error> {
    Err(Error::Malformed(Malformed::TooLarge))
}

/// The first `k` entries of a name map in the binary format: for each its index and its name.
pub open spec fn name_entries(list: Seq<(u32, Seq<char>)>, k: nat) -> Result<Seq<u8>, Error>
    decreases k,
{
    if k == 0 {
        Ok(Seq::empty())
    } else {
        match name_entries(list, (k - 1) as nat) {
            Err(e) => Err(e),
            Ok(bytes) => if encode_utf8(list[k - 1].1).len() > u32::MAX {
                too_large()
            } else {
                Ok(
                    bytes + leb128::unsigned(list[k - 1].0 as nat) + sized(
                        encode_utf8(list[k - 1].1),
                    ),
                )
            },
        }
    }
}

pub proof fn lemma_name_entries_err(list: Seq<(u32, Seq<char>)>, k: nat, n: nat)
    requires
        k <= n,
        name_entries(list, k) is Err,
    ensures
        name_entries(list, n) == name_entries(list, k),
    decreases n,
{
    if k < n {
        lemma_name_entries_err(list, k, (n - 1) as nat);
    }
}

/// A name map in the binary format: the number of its entries, then the entries.
pub open spec fn name_map(list: Seq<(u32, Seq<char>)>) -> Result<Seq<u8>, Error> {
    if list.len() > u32::MAX {
        too_large()
    } else {
        match name_entries(list, list.len()) {
            Err(e) => Err(e),
            Ok(bytes) => Ok(leb128::unsigned(list.len()) + bytes),
        }
    }
}

fn write_name_map(sink: &mut Vec<u8>, list: &[Naming]) -> (r: Result<(), Error>)
    ensures
        match name_map(namings(list@)) {
            Ok(bytes) => r is Ok && final(sink)@ == old(sink)@ + bytes,
            Err(e) => r == Err::<(), Error>(e),
        },
{
    if list.len() > u32::MAX as usize {
        return Err(Error::Malformed(Malformed::TooLarge));
    }
    leb128::write_u32(sink, list.len() as u32);
    let ghost head = sink@;
    let ghost source = namings(list@);
    let mut i: usize = 0;
    assert(sink@ =~= head + Seq::<u8>::empty());
    while i < list.len()
        invariant
            i <= list@.len() <= u32::MAX,
            source == namings(list@),
            name_entries(source, i as nat) is Ok,
            sink@ == head + name_entries(source, i as nat)->Ok_0,
        decreases list@.len() - i,
    {
        let name = list[i].name.as_str();
        assert(source[i as int] == (list@[i as int].index, name@));
        if !name_fits(name) {
            proof {
                lemma_name_entries_err(source, (i + 1) as nat, source.len());
            }
            return Err(Error::Malformed(Malformed::TooLarge));
        }
        leb128::write_u32(sink, list[i].index);
        write_name(sink, name);
        i += 1;
        assert(sink@ =~= head + name_entries(source, i as nat)->Ok_0);
    }
    assert(sink@ =~= old(sink)@ + name_map(source)->Ok_0);
    Ok(())
}

/// The first `k` entries of a map of name maps in the binary format: for each its index and
/// its name map.
pub open spec fn indirect_entries(list: Seq<(u32, Seq<(u32, Seq<char>)>)>, k: nat) -> Result<
    Seq<u8>,
    Error,
>
    decreases k,
{
    if k == 0 {
        Ok(Seq::empty())
    } else {
        match indirect_entries(list, (k - 1) as nat) {
            Err(e) => Err(e),
            Ok(bytes) => match name_map(list[k - 1].1) {
                Err(e) => Err(e),
                Ok(names) => Ok(bytes + leb128::unsigned(list[k - 1].0 as nat) + names),
            },
        }
    }
}

pub proof fn lemma_indirect_entries_err(list: Seq<(u32, Seq<(u32, Seq<char>)>)>, k: nat, n: nat)
    requires
        k <= n,
        indirect_entries(list, k) is Err,
    ensures
        indirect_entries(list, n) == indirect_entries(list, k),
    decreases n,
{
    if k < n {
        lemma_indirect_entries_err(list, k, (n - 1) as nat);
    }
}

/// A map of name maps in the binary format: the number of its entries, then the entries.
pub open spec fn indirect_map(list: Seq<(u32, Seq<(u32, Seq<char>)>)>) -> Result<Seq<u8>, Error> {
    if list.len() > u32::MAX {
        too_large()
    } else {
        match indirect_entries(list, list.len()) {
            Err(e) => Err(e),
            Ok(bytes) => Ok(leb128::unsigned(list.len()) + bytes),
        }
    }
}

pub(crate) fn write_indirect_map(sink: &mut Vec<u8>, list: &[IndirectNaming]) -> (r: Result<
    (),
    Error,
>)
    ensures
        match indirect_map(indirect(list@)) {
            Ok(bytes) => r is Ok && final(sink)@ == old(sink)@ + bytes,
            Err(e) => r == Err::<(), Error>(e),
        },
{
    if list.len() > u32::MAX as usize {
        return Err(Error::Malformed(Malformed::TooLarge));
    }
    leb128::write_u32(sink, list.len() as u32);
    let ghost head = sink@;
    let ghost source = indirect(list@);
    let mut i: usize = 0;
    assert(sink@ =~= head + Seq::<u8>::empty());
    while i < list.len()
        invariant
            i <= list@.len() <= u32::MAX,
            source == indirect(list@),
            indirect_entries(source, i as nat) is Ok,
            sink@ == head + indirect_entries(source, i as nat)->Ok_0,
        decreases list@.len() - i,
    {
        assert(source[i as int] == (list@[i as int].index, namings(list@[i as int].names@)));
        leb128::write_u32(sink, list[i].index);
        match write_name_map(sink, list[i].names.as_slice()) {
            Ok(()) => {},
            Err(e) => {
                proof {
                    lemma_indirect_entries_err(source, (i + 1) as nat, source.len());
                }
                return Err(e);
            },
        }
        i += 1;
        assert(sink@ =~= head + indirect_entries(source, i as nat)->Ok_0);
    }
    assert(sink@ =~= old(sink)@ + indirect_map(source)->Ok_0);
    Ok(())
}

/// A subsection in the binary format: its id, and its contents as a vector of bytes.
pub open spec fn subsection(id: u8, contents: Result<Seq<u8>, Error>) -> Result<Seq<u8>, Error> {
    match contents {
        Err(e) => Err(e),
        Ok(bytes) => if bytes.len() > u32::MAX {
            too_large()
        } else {
            Ok(seq![id] + sized(bytes))
        },
    }
}

pub(crate) fn write_subsection(sink: &mut Vec<u8>, id: u8, contents: Vec<u8>) -> (r: Result<
    (),
    Error,
>)
    ensures
        match subsection(id, Ok(contents@)) {
            Ok(bytes) => r is Ok && final(sink)@ == old(sink)@ + bytes,
            Err(e) => r == Err::<(), Error>(e),
        },
{
    if contents.len() > u32::MAX as usize {
        return Err(Error::Malformed(Malformed::TooLarge));
    }
    sink.push(id);
    write_sized(sink, contents.as_slice());
    assert(sink@ =~= old(sink)@ + (seq![id] + sized(contents@)));
    Ok(())
}

/// The subsection that names the module, where the module has a name.
pub open spec fn module_subsection(module: Option<Seq<char>>) -> Result<Seq<u8>, Error> {
    match module {
        None => Ok(Seq::empty()),
        Some(name) => if encode_utf8(name).len() > u32::MAX {
            too_large()
        } else {
            subsection(0, Ok(sized(encode_utf8(name))))
        },
    }
}

/// The contents of the custom section that holds the names: the name of the section, then a
/// subsection for the module, if it has a name, and one each for the functions, the locals,
/// the types, the memories and the globals.
pub open spec fn name_section_bytes(section: NameSectionView) -> Result<Seq<u8>, Error> {
    match module_subsection(section.module) {
        Err(e) => Err(e),
        Ok(module) => match subsection(1, name_map(section.functions)) {
            Err(e) => Err(e),
            Ok(functions) => match subsection(2, indirect_map(section.locals)) {
                Err(e) => Err(e),
                Ok(locals) => match subsection(4, name_map(section.types)) {
                    Err(e) => Err(e),
                    Ok(types) => match subsection(6, name_map(section.memories)) {
                        Err(e) => Err(e),
                        Ok(memories) => match subsection(7, name_map(section.globals)) {
                            Err(e) => Err(e),
                            Ok(globals) => {
                                let contents = sized(encode_utf8("name"@)) + module + functions
                                    + locals + types + memories + globals;
                                if contents.len() > u32::MAX {
                                    too_large()
                                } else {
                                    Ok(contents)
                                }
                            },
                        },
                    },
                },
            },
        },
    }
}

fn write_names(sink: &mut Vec<u8>, id: u8, list: &[Naming]) -> (r: Result<(), Error>)
    ensures
        match subsection(id, name_map(namings(list@))) {
            Ok(bytes) => r is Ok && final(sink)@ == old(sink)@ + bytes,
            Err(e) => r == Err::<(), Error>(e),
        },
{
    let mut contents = Vec::new();
    match write_name_map(&mut contents, list) {
        Ok(()) => {},
        Err(e) => {
            return Err(e);
        },
    }
    assert(contents@ =~= name_map(namings(list@))->Ok_0);
    write_subsection(sink, id, contents)
}

/// The contents of the custom section that holds the names.
pub fn encode_names(section: &NameSection) -> (r: Result<Vec<u8>, Error>)
    ensures
        match name_section_bytes(section@) {
            Ok(bytes) => r is Ok && r->Ok_0@ == bytes,
            Err(e) => r == Err::<Vec<u8>, Error>(e),
        },
{
    let mut out = Vec::new();
    proof {
        reveal_strlit("name");
        vstd::string::is_ascii_spec_bytes("name");
    }
    write_name(&mut out, "name");
    let ghost head = out@;
    assert(head =~= sized(encode_utf8("name"@)));
    match &section.module {
        None => {
            assert(out@ =~= head + Seq::<u8>::empty());
        },
        Some(module) => {
            let name = module.as_str();
            if !name_fits(name) {
                return Err(Error::Malformed(Malformed::TooLarge));
            }
            let mut contents = Vec::new();
            write_name(&mut contents, name);
            assert(contents@ =~= sized(encode_utf8(name@)));
            match write_subsection(&mut out, 0, contents) {
                Ok(()) => {},
                Err(e) => {
                    return Err(e);
                },
            }
        },
    }
    match write_names(&mut out, 1, section.functions.as_slice()) {
        Ok(()) => {},
        Err(e) => {
            return Err(e);
        },
    }
    let mut locals = Vec::new();
    match write_indirect_map(&mut locals, section.locals.as_slice()) {
        Ok(()) => {},
        Err(e) => {
            return Err(e);
        },
    }
    assert(locals@ =~= indirect_map(indirect(section.locals@))->Ok_0);
    match write_subsection(&mut out, 2, locals) {
        Ok(()) => {},
        Err(e) => {
            return Err(e);
        },
    }
    match write_names(&mut out, 4, section.types.as_slice()) {
        Ok(()) => {},
        Err(e) => {
            return Err(e);
        },
    }
    match write_names(&mut out, 6, section.memories.as_slice()) {
        Ok(()) => {},
        Err(e) => {
            return Err(e);
        },
    }
    match write_names(&mut out, 7, section.globals.as_slice()) {
        Ok(()) => {},
        Err(e) => {
            return Err(e);
        },
    }
    if out.len() > u32::MAX as usize {
        return Err(Error::Malformed(Malformed::TooLarge));
    }
    Ok(out)
}

} // verus!
