//! Where the types of a transformed module stand.

use vstd::prelude::*;

use crate::assemble::{helper_types_bytes, type_section, type_sigs, types_bytes};
use crate::binary::items;
use crate::helper::{spec_helper_type, OFFSET_TYPES};
use crate::module::Module;
use crate::reverse::Env;
use crate::sections::{floats, func_type};
use crate::util::{BlockType, ValType};

verus! {

/// The types of a transformed module in the order of their indices: for the type `i` of the
/// source module its forward form, which is the type itself, at `2 * i` and its backward form
/// at `2 * i + 1`, and behind them the helper types.
pub open spec fn output_types(sigs: Seq<(Seq<ValType>, Seq<ValType>)>) -> Seq<
    (Seq<ValType>, Seq<ValType>),
> {
    Seq::new(
        2 * sigs.len() + OFFSET_TYPES as nat,
        |j: int|
            if j < 2 * sigs.len() {
                if j % 2 == 0 {
                    sigs[j / 2]
                } else {
                    (
                        floats(sigs[j / 2].1, sigs[j / 2].1.len()),
                        floats(sigs[j / 2].0, sigs[j / 2].0.len()),
                    )
                }
            } else {
                (spec_helper_type(j - 2 * sigs.len()).1, spec_helper_type(j - 2 * sigs.len()).2)
            },
    )
}

/// The first `k` of a list of function types in the binary format, one after the other.
pub open spec fn types_encoding(types: Seq<(Seq<ValType>, Seq<ValType>)>, k: nat) -> Seq<u8>
    decreases k,
{
    if k == 0 {
        Seq::empty()
    } else {
        types_encoding(types, (k - 1) as nat) + func_type(types[k - 1].0, types[k - 1].1)
    }
}

proof fn lemma_module_types(sigs: Seq<(Seq<ValType>, Seq<ValType>)>, k: nat)
    requires
        k <= sigs.len(),
    ensures
        types_encoding(output_types(sigs), 2 * k) == types_bytes(sigs, k),
    decreases k,
{
    if k > 0 {
        lemma_module_types(sigs, (k - 1) as nat);
        let types = output_types(sigs);
        assert(types[2 * k - 2] == sigs[k - 1]);
        assert(types[2 * k - 1] == (
            floats(sigs[k - 1].1, sigs[k - 1].1.len()),
            floats(sigs[k - 1].0, sigs[k - 1].0.len()),
        ));
        assert(types_encoding(types, 2 * k) == types_encoding(types, (2 * k - 1) as nat)
            + func_type(types[2 * k - 1].0, types[2 * k - 1].1));
        assert(types_encoding(types, (2 * k - 1) as nat) == types_encoding(
            types,
            (2 * k - 2) as nat,
        ) + func_type(types[2 * k - 2].0, types[2 * k - 2].1));
        assert(types_encoding(types, 2 * k) =~= types_bytes(sigs, k));
    }
}

proof fn lemma_helper_types(sigs: Seq<(Seq<ValType>, Seq<ValType>)>, h: nat)
    requires
        h <= OFFSET_TYPES,
    ensures
        types_encoding(output_types(sigs), 2 * sigs.len() + h) == types_bytes(sigs, sigs.len())
            + helper_types_bytes(h),
    decreases h,
{
    if h == 0 {
        lemma_module_types(sigs, sigs.len());
        assert(types_bytes(sigs, sigs.len()) + helper_types_bytes(0) =~= types_bytes(
            sigs,
            sigs.len(),
        ));
    } else {
        lemma_helper_types(sigs, (h - 1) as nat);
        let types = output_types(sigs);
        let j = 2 * sigs.len() + h - 1;
        assert(types[j] == (spec_helper_type(h - 1).1, spec_helper_type(h - 1).2));
        assert(types_encoding(types, 2 * sigs.len() + h) == types_encoding(types, j as nat)
            + func_type(types[j].0, types[j].1));
        assert(types_encoding(types, 2 * sigs.len() + h) =~= types_bytes(sigs, sigs.len())
            + helper_types_bytes(h));
    }
}

/// The type section of a transformed module holds the types of [`output_types`] in their
/// order: the forward form of the type `i` of the source module has the index `2 * i`, which is
/// the index that a block type of the forward pass names, and the backward form follows it.
pub proof fn lemma_type_indices(module: &Module, env: Env, typeidx: u32)
    requires
        type_section(module) is Ok,
    ensures
        type_section(module)->Ok_0 == items(
            (2 * module.types@.len() + OFFSET_TYPES) as u32,
            types_encoding(
                output_types(type_sigs(module)),
                2 * module.types@.len() + OFFSET_TYPES as nat,
            ),
        ),
        env.blockty(BlockType::Func(typeidx)) == BlockType::Func((2 * typeidx) as u32),
        typeidx < module.types@.len() ==> output_types(type_sigs(module))[2 * typeidx]
            == type_sigs(module)[typeidx as int],
{
    lemma_helper_types(type_sigs(module), OFFSET_TYPES as nat);
}

} // verus!
