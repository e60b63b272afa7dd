//! Decoding never reports a position outside its input: every result ends
//! between its start and the end of the input, and every error lies within
//! the input.
use vstd::prelude::*;

use crate::error::{spec_u8, IntType, SpecResult};
use crate::instruction::{
    spec_base_imm, spec_body, spec_extended, spec_extended_imm, spec_i32, spec_i64, spec_if_body,
    spec_instr, spec_instrs_to_end, spec_label_vec, spec_labels, spec_lanes, spec_le32, spec_le64,
    spec_leaf, spec_shuffle, spec_v128, spec_val_type_vec, spec_val_types, spec_vector,
    spec_vector_imm, spec_zero, InstrView,
};
use crate::leb128::{leb_max_len, leb_scan, spec_leb, LebExtent};
use crate::reader::{find_byte, lemma_find_byte_range, spec_slice, spec_str};
use crate::section::{
    spec_code, spec_data, spec_export, spec_function, spec_global, spec_import, spec_items, spec_local,
    spec_memory, spec_offset_expr, spec_table, spec_type, spec_vec,
};
use crate::types::{
    spec_block_type, spec_index, spec_lane, spec_limit, spec_mem_arg, spec_read_ref_type,
    spec_read_section_type, spec_read_val_type, spec_u32,
};
use crate::wasm::{spec_module, spec_section, spec_sections, ModuleView};

verus! {

/// A decoding result from `p` in `s[..e]` stays within the input: it ends
/// between `p` and `e`, and an error lies at most at `e`.
pub open spec fn within<T>(r: SpecResult<T>, p: int, e: int) -> bool {
    match r {
        Ok((_, q)) => p <= q <= e,
        Err((_, o)) => 0 <= o <= e,
    }
}

pub broadcast proof fn lemma_u8_within(s: Seq<u8>, p: int, e: int)
    requires
        0 <= p <= e,
    ensures
        within(#[trigger] spec_u8(s, p, e), p, e),
{
}

proof fn lemma_scan_within(s: Seq<u8>, p: int, e: int, i: nat, k: nat)
    requires
        0 <= p,
        p + i <= e,
    ensures
        match leb_scan(s, p, e, i, k) {
            LebExtent::Len(n) => n >= 1 && p + n <= e,
            LebExtent::Eof(at) => p <= at <= e,
            LebExtent::TooLong => true,
        },
    decreases k - i,
{
    if p + i < e && s[p + i] >= 128 && i + 1 < k {
        lemma_scan_within(s, p, e, i + 1, k);
    }
}

pub broadcast proof fn lemma_leb_within(s: Seq<u8>, p: int, e: int, ty: IntType)
    requires
        0 <= p <= e,
    ensures
        within(#[trigger] spec_leb(s, p, e, ty), p, e),
{
    lemma_scan_within(s, p, e, 0, leb_max_len(ty));
}

pub broadcast group group_within_basics {
    lemma_u8_within,
    lemma_leb_within,
}

pub broadcast proof fn lemma_u32_within(s: Seq<u8>, p: int, e: int)
    requires
        0 <= p <= e,
    ensures
        within(#[trigger] spec_u32(s, p, e), p, e),
{
    broadcast use group_within_basics;

}

pub broadcast proof fn lemma_index_within(s: Seq<u8>, p: int, e: int)
    requires
        0 <= p <= e,
    ensures
        within(#[trigger] spec_index(s, p, e), p, e),
{
    broadcast use group_within_basics;

}

pub broadcast proof fn lemma_i32_within(s: Seq<u8>, p: int, e: int)
    requires
        0 <= p <= e,
    ensures
        within(#[trigger] spec_i32(s, p, e), p, e),
{
    broadcast use group_within_basics;

}

pub broadcast proof fn lemma_i64_within(s: Seq<u8>, p: int, e: int)
    requires
        0 <= p <= e,
    ensures
        within(#[trigger] spec_i64(s, p, e), p, e),
{
    broadcast use group_within_basics;

}

pub broadcast proof fn lemma_le32_within(s: Seq<u8>, p: int, e: int)
    requires
        0 <= p <= e,
    ensures
        within(#[trigger] spec_le32(s, p, e), p, e),
{
    broadcast use group_within_basics;

}

pub broadcast proof fn lemma_le64_within(s: Seq<u8>, p: int, e: int)
    requires
        0 <= p <= e,
    ensures
        within(#[trigger] spec_le64(s, p, e), p, e),
{
    broadcast use group_within_basics;

}

pub broadcast proof fn lemma_v128_within(s: Seq<u8>, p: int, e: int)
    requires
        0 <= p <= e,
    ensures
        within(#[trigger] spec_v128(s, p, e), p, e),
{
    broadcast use group_within_basics;

    lemma_le64_within(s, p, e);
    match spec_le64(s, p, e) {
        Ok((_, q)) => {
            lemma_le64_within(s, q, e);
        },
        Err(_) => {},
    }
}

pub broadcast proof fn lemma_zero_within(s: Seq<u8>, p: int, e: int)
    requires
        0 <= p <= e,
    ensures
        within(#[trigger] spec_zero(s, p, e), p, e),
{
    broadcast use group_within_basics;

}

pub broadcast proof fn lemma_mem_arg_within(s: Seq<u8>, p: int, e: int)
    requires
        0 <= p <= e,
    ensures
        within(#[trigger] spec_mem_arg(s, p, e), p, e),
{
    broadcast use group_within_basics;

    lemma_u32_within(s, p, e);
    match spec_u32(s, p, e) {
        Ok((_, q)) => {
            lemma_u32_within(s, q, e);
        },
        Err(_) => {},
    }
}

pub broadcast proof fn lemma_block_type_within(s: Seq<u8>, p: int, e: int)
    requires
        0 <= p <= e,
    ensures
        within(#[trigger] spec_block_type(s, p, e), p, e),
{
    broadcast use group_within_basics;

}

pub broadcast proof fn lemma_ref_type_within(s: Seq<u8>, p: int, e: int)
    requires
        0 <= p <= e,
    ensures
        within(#[trigger] spec_read_ref_type(s, p, e), p, e),
{
    broadcast use group_within_basics;

}

pub broadcast proof fn lemma_val_type_within(s: Seq<u8>, p: int, e: int)
    requires
        0 <= p <= e,
    ensures
        within(#[trigger] spec_read_val_type(s, p, e), p, e),
{
    broadcast use group_within_basics;

}

pub broadcast proof fn lemma_section_type_within(s: Seq<u8>, p: int, e: int)
    requires
        0 <= p <= e,
    ensures
        within(#[trigger] spec_read_section_type(s, p, e), p, e),
{
    broadcast use group_within_basics;

}

pub broadcast proof fn lemma_limit_within(s: Seq<u8>, p: int, e: int)
    requires
        0 <= p <= e,
    ensures
        within(#[trigger] spec_limit(s, p, e), p, e),
{
    broadcast use group_within_basics;

    match spec_u8(s, p, e) {
        Ok((_, q)) => {
            lemma_u32_within(s, q, e);
            match spec_u32(s, q, e) {
                Ok((_, q2)) => {
                    lemma_u32_within(s, q2, e);
                },
                Err(_) => {},
            }
        },
        Err(_) => {},
    }
}

pub broadcast proof fn lemma_slice_within(s: Seq<u8>, p: int, e: int)
    requires
        0 <= p <= e,
    ensures
        within(#[trigger] spec_slice(s, p, e), p, e),
{
    broadcast use group_within_basics;

}

pub broadcast proof fn lemma_str_within(s: Seq<u8>, p: int, e: int)
    requires
        0 <= p <= e,
    ensures
        within(#[trigger] spec_str(s, p, e), p, e),
{
    broadcast use group_within_basics;

    lemma_slice_within(s, p, e);
}

pub broadcast proof fn lemma_lane_within(s: Seq<u8>, p: int, e: int, max: u8)
    requires
        0 <= p <= e,
    ensures
        within(#[trigger] spec_lane(s, p, e, max), p, e),
{
    broadcast use group_within_basics;

}

pub broadcast group group_within_reads {
    lemma_u32_within,
    lemma_index_within,
    lemma_i32_within,
    lemma_i64_within,
    lemma_le32_within,
    lemma_le64_within,
    lemma_v128_within,
    lemma_zero_within,
    lemma_mem_arg_within,
    lemma_block_type_within,
    lemma_ref_type_within,
    lemma_val_type_within,
    lemma_section_type_within,
    lemma_limit_within,
    lemma_slice_within,
    lemma_str_within,
    lemma_lane_within,
}

proof fn lemma_lanes_within(s: Seq<u8>, p: int, e: int, k: nat, acc: int)
    requires
        0 <= p <= e,
    ensures
        within(spec_lanes(s, p, e, k, acc), p, e),
    decreases 16 - k,
{
    broadcast use group_within_basics, group_within_reads;

    if k < 16 {
        match spec_lane(s, p, e, 16) {
            Ok((l, q)) => {
                lemma_lanes_within(s, q, e, k + 1, acc + l.0 * crate::reader::pow256(k));
            },
            Err(_) => {},
        }
    }
}

proof fn lemma_labels_within(s: Seq<u8>, p: int, e: int, n: nat, acc: Seq<crate::types::LabelIdx>)
    requires
        0 <= p <= e,
    ensures
        within(spec_labels(s, p, e, n, acc), p, e),
    decreases n,
{
    broadcast use group_within_basics, group_within_reads;

    if n > 0 {
        match spec_index(s, p, e) {
            Ok((v, q)) => {
                lemma_labels_within(s, q, e, (n - 1) as nat, acc.push(crate::types::LabelIdx(v)));
            },
            Err(_) => {},
        }
    }
}

proof fn lemma_val_types_within(s: Seq<u8>, p: int, e: int, n: nat, acc: Seq<crate::types::ValType>)
    requires
        0 <= p <= e,
    ensures
        within(spec_val_types(s, p, e, n, acc), p, e),
    decreases n,
{
    broadcast use group_within_basics, group_within_reads;

    if n > 0 {
        match spec_read_val_type(s, p, e) {
            Ok((v, q)) => {
                lemma_val_types_within(s, q, e, (n - 1) as nat, acc.push(v));
            },
            Err(_) => {},
        }
    }
}

pub proof fn lemma_vecs_within(s: Seq<u8>, p: int, e: int)
    requires
        0 <= p <= e,
    ensures
        within(spec_label_vec(s, p, e), p, e),
        within(spec_val_type_vec(s, p, e), p, e),
        within(spec_shuffle(s, p, e), p, e),
{
    broadcast use group_within_basics, group_within_reads;

    match spec_u32(s, p, e) {
        Ok((n, q)) => {
            lemma_labels_within(s, q, e, n as nat, Seq::empty());
            lemma_val_types_within(s, q, e, n as nat, Seq::empty());
        },
        Err(_) => {},
    }
    lemma_lanes_within(s, p, e, 0, 0);
}

proof fn lemma_leaf_within(s: Seq<u8>, q: int, e: int, op: u8)
    requires
        1 <= q <= e,
    ensures
        within(spec_leaf(s, q, e, op), q, e),
{
    broadcast use group_within_basics, group_within_reads;

    lemma_vecs_within(s, q, e);
    match spec_u32(s, q, e) {
        Ok((sub, q2)) => {
            lemma_vecs_within(s, q2, e);
            assert(within(spec_extended_imm(s, q2, e, sub, q), q2, e));
            assert(within(spec_vector_imm(s, q2, e, sub, q), q2, e));
        },
        Err(_) => {},
    }
    assert(within(spec_extended(s, q, e), q, e));
    assert(within(spec_vector(s, q, e), q, e));
    assert(within(spec_base_imm(s, q, e, op), q, e));
}

proof fn lemma_instr_within(s: Seq<u8>, p: int, e: int)
    requires
        0 <= p <= e,
    ensures
        within(spec_instr(s, p, e), p, e),
    decreases e - p, 0nat,
{
    broadcast use group_within_basics, group_within_reads;

    if p < e {
        let op = s[p];
        lemma_vecs_within(s, p + 1, e);
        if op == 0x02 || op == 0x03 || op == 0x04 {
            match spec_block_type(s, p + 1, e) {
                Ok((bt, q)) => {
                    lemma_body_within(s, q, e, Seq::empty());
                    lemma_if_within(s, q, e, Seq::empty(), Seq::empty(), false);
                },
                Err(_) => {},
            }
        } else if op == 0x0E {
            match spec_label_vec(s, p + 1, e) {
                Ok((_, q)) => {},
                Err(_) => {},
            }
        } else if op != 0x1C {
            lemma_leaf_within(s, p + 1, e, op);
        }
    }
}

proof fn lemma_body_within(s: Seq<u8>, p: int, e: int, acc: Seq<InstrView>)
    requires
        0 <= p <= e,
    ensures
        within(spec_body(s, p, e, acc), p, e),
    decreases e - p, 1nat,
{
    if p < e && s[p] != 0x0B {
        lemma_instr_within(s, p, e);
        match spec_instr(s, p, e) {
            Ok((i, q)) => {
                if p < q <= e {
                    lemma_body_within(s, q, e, acc.push(i));
                }
            },
            Err(_) => {},
        }
    }
}

proof fn lemma_if_within(s: Seq<u8>, p: int, e: int, a: Seq<InstrView>, b: Seq<InstrView>, in_else: bool)
    requires
        0 <= p <= e,
    ensures
        within(spec_if_body(s, p, e, a, b, in_else), p, e),
    decreases e - p, 1nat,
{
    if p < e && s[p] != 0x0B {
        if s[p] == 0x05 {
            if !in_else {
                lemma_if_within(s, p + 1, e, a, b, true);
            }
        } else {
            lemma_instr_within(s, p, e);
            match spec_instr(s, p, e) {
                Ok((i, q)) => {
                    if p < q <= e {
                        if in_else {
                            lemma_if_within(s, q, e, a, b.push(i), true);
                        } else {
                            lemma_if_within(s, q, e, a.push(i), b, false);
                        }
                    }
                },
                Err(_) => {},
            }
        }
    }
}

proof fn lemma_to_end_within(s: Seq<u8>, p: int, e: int, acc: Seq<InstrView>)
    requires
        0 <= p <= e,
    ensures
        within(spec_instrs_to_end(s, p, e, acc), p, e),
    decreases e - p,
{
    if p < e {
        lemma_instr_within(s, p, e);
        match spec_instr(s, p, e) {
            Ok((i, q)) => {
                if p < q <= e {
                    lemma_to_end_within(s, q, e, acc.push(i));
                }
            },
            Err(_) => {},
        }
    }
}

/// An item decoder whose every result stays within its input.
pub open spec fn item_within<T>(item: spec_fn(Seq<u8>, int, int) -> SpecResult<T>) -> bool {
    forall|s: Seq<u8>, p: int, e: int| 0 <= p <= e ==> #[trigger] within(item(s, p, e), p, e)
}

proof fn lemma_items_within<T>(s: Seq<u8>, p: int, e: int, n: nat, item: spec_fn(Seq<u8>, int, int) -> SpecResult<T>, acc: Seq<T>)
    requires
        0 <= p <= e,
        item_within(item),
    ensures
        within(spec_items(s, p, e, n, item, acc), p, e),
    decreases n,
{
    if n > 0 {
        assert(within(item(s, p, e), p, e));
        match item(s, p, e) {
            Ok((x, q)) => {
                lemma_items_within(s, q, e, (n - 1) as nat, item, acc.push(x));
            },
            Err(_) => {},
        }
    }
}

/// A vector decoded by an item decoder whose results stay within the input
/// stays within the input too.
pub proof fn lemma_vec_within_pub<T>(s: Seq<u8>, p: int, e: int, item: spec_fn(Seq<u8>, int, int) -> SpecResult<T>)
    requires
        0 <= p <= e,
        item_within(item),
    ensures
        within(spec_vec(s, p, e, item), p, e),
{
    lemma_vec_within(s, p, e, item);
}

proof fn lemma_vec_within<T>(s: Seq<u8>, p: int, e: int, item: spec_fn(Seq<u8>, int, int) -> SpecResult<T>)
    requires
        0 <= p <= e,
        item_within(item),
    ensures
        within(spec_vec(s, p, e, item), p, e),
{
    broadcast use group_within_basics, group_within_reads;

    match spec_u32(s, p, e) {
        Ok((n, q)) => {
            lemma_items_within(s, q, e, n as nat, item, Seq::empty());
        },
        Err(_) => {},
    }
}

proof fn lemma_entry_within(s: Seq<u8>, p: int, e: int)
    requires
        0 <= p <= e,
    ensures
        within(spec_type(s, p, e), p, e),
        within(spec_import(s, p, e), p, e),
        within(spec_function(s, p, e), p, e),
        within(spec_table(s, p, e), p, e),
        within(spec_memory(s, p, e), p, e),
        within(spec_global(s, p, e), p, e),
        within(spec_export(s, p, e), p, e),
        within(spec_local(s, p, e), p, e),
{
    broadcast use group_within_basics, group_within_reads;

    lemma_vecs_within(s, p, e);
    match spec_u8(s, p, e) {
        Ok((_, q)) => {
            lemma_vecs_within(s, q, e);
            match spec_val_type_vec(s, q, e) {
                Ok((_, q2)) => {
                    lemma_vecs_within(s, q2, e);
                },
                Err(_) => {},
            }
        },
        Err(_) => {},
    }
    match spec_read_val_type(s, p, e) {
        Ok((_, q)) => {
            match spec_u8(s, q, e) {
                Ok((_, q2)) => {
                    lemma_body_within(s, q2, e, Seq::empty());
                },
                Err(_) => {},
            }
        },
        Err(_) => {},
    }
    match spec_str(s, p, e) {
        Ok((_, q)) => {
            match spec_str(s, q, e) {
                Ok((_, q2)) => {
                    match spec_u8(s, q2, e) {
                        Ok((_, q3)) => {},
                        Err(_) => {},
                    }
                },
                Err(_) => {},
            }
            match spec_u8(s, q, e) {
                Ok((_, q2)) => {},
                Err(_) => {},
            }
        },
        Err(_) => {},
    }
}

pub proof fn lemma_local_item_within()
    ensures
        item_within(crate::section::spec_local_item()),
{
    assert forall|s: Seq<u8>, p: int, e: int| 0 <= p <= e implies #[trigger] within(crate::section::spec_local_item()(s, p, e), p, e) by {
        lemma_entry_within(s, p, e);
    }
}

proof fn lemma_code_within(s: Seq<u8>, p: int, e: int)
    requires
        0 <= p <= e,
    ensures
        within(spec_code(s, p, e), p, e),
{
    broadcast use group_within_basics, group_within_reads;

    match spec_leb(s, p, e, IntType::U32) {
        Ok((n, q)) => {
            if q + n <= e && n > 0 {
                lemma_local_item_within();
                lemma_vec_within(s, q, q + n - 1, crate::section::spec_local_item());
                match spec_vec(s, q, q + n - 1, crate::section::spec_local_item()) {
                    Ok((_, q2)) => {
                        lemma_to_end_within(s, q2, q + n - 1, Seq::empty());
                    },
                    Err(_) => {},
                }
            }
        },
        Err(_) => {},
    }
}

proof fn lemma_data_within(s: Seq<u8>, p: int, e: int)
    requires
        0 <= p <= e,
    ensures
        within(spec_data(s, p, e), p, e),
{
    broadcast use group_within_basics, group_within_reads;

    match spec_u8(s, p, e) {
        Ok((mode, q)) => {
            let q2 = if mode == 2 {
                match spec_index(s, q, e) {
                    Ok((_, q2)) => q2,
                    Err(_) => q,
                }
            } else {
                q
            };
            lemma_find_byte_range(s, q2, e, 0x0B);
            match find_byte(s, q2, e, 0x0B) {
                Some(k) => {
                    lemma_to_end_within(s, q2, k, Seq::empty());
                    lemma_slice_within(s, k + 1, e);
                },
                None => {},
            }
            assert(within(spec_offset_expr(s, q2, e), q2, e));
            match spec_offset_expr(s, q2, e) {
                Ok((_, q3)) => {
                    lemma_slice_within(s, q3, e);
                },
                Err(_) => {},
            }
            lemma_slice_within(s, q2, e);
        },
        Err(_) => {},
    }
}

pub proof fn lemma_type_item_within()
    ensures
        item_within(crate::section::spec_type_item()),
{
    assert forall|s: Seq<u8>, p: int, e: int| 0 <= p <= e implies #[trigger] within(crate::section::spec_type_item()(s, p, e), p, e) by {
        lemma_entry_within(s, p, e);
        lemma_code_within(s, p, e);
        lemma_data_within(s, p, e);
    }
}

pub proof fn lemma_import_item_within()
    ensures
        item_within(crate::section::spec_import_item()),
{
    assert forall|s: Seq<u8>, p: int, e: int| 0 <= p <= e implies #[trigger] within(crate::section::spec_import_item()(s, p, e), p, e) by {
        lemma_entry_within(s, p, e);
        lemma_code_within(s, p, e);
        lemma_data_within(s, p, e);
    }
}

pub proof fn lemma_function_item_within()
    ensures
        item_within(crate::section::spec_function_item()),
{
    assert forall|s: Seq<u8>, p: int, e: int| 0 <= p <= e implies #[trigger] within(crate::section::spec_function_item()(s, p, e), p, e) by {
        lemma_entry_within(s, p, e);
        lemma_code_within(s, p, e);
        lemma_data_within(s, p, e);
    }
}

pub proof fn lemma_table_item_within()
    ensures
        item_within(crate::section::spec_table_item()),
{
    assert forall|s: Seq<u8>, p: int, e: int| 0 <= p <= e implies #[trigger] within(crate::section::spec_table_item()(s, p, e), p, e) by {
        lemma_entry_within(s, p, e);
        lemma_code_within(s, p, e);
        lemma_data_within(s, p, e);
    }
}

pub proof fn lemma_memory_item_within()
    ensures
        item_within(crate::section::spec_memory_item()),
{
    assert forall|s: Seq<u8>, p: int, e: int| 0 <= p <= e implies #[trigger] within(crate::section::spec_memory_item()(s, p, e), p, e) by {
        lemma_entry_within(s, p, e);
        lemma_code_within(s, p, e);
        lemma_data_within(s, p, e);
    }
}

pub proof fn lemma_global_item_within()
    ensures
        item_within(crate::section::spec_global_item()),
{
    assert forall|s: Seq<u8>, p: int, e: int| 0 <= p <= e implies #[trigger] within(crate::section::spec_global_item()(s, p, e), p, e) by {
        lemma_entry_within(s, p, e);
        lemma_code_within(s, p, e);
        lemma_data_within(s, p, e);
    }
}

pub proof fn lemma_export_item_within()
    ensures
        item_within(crate::section::spec_export_item()),
{
    assert forall|s: Seq<u8>, p: int, e: int| 0 <= p <= e implies #[trigger] within(crate::section::spec_export_item()(s, p, e), p, e) by {
        lemma_entry_within(s, p, e);
        lemma_code_within(s, p, e);
        lemma_data_within(s, p, e);
    }
}

pub proof fn lemma_code_item_within()
    ensures
        item_within(crate::section::spec_code_item()),
{
    assert forall|s: Seq<u8>, p: int, e: int| 0 <= p <= e implies #[trigger] within(crate::section::spec_code_item()(s, p, e), p, e) by {
        lemma_entry_within(s, p, e);
        lemma_code_within(s, p, e);
        lemma_data_within(s, p, e);
    }
}

pub proof fn lemma_data_item_within()
    ensures
        item_within(crate::section::spec_data_item()),
{
    assert forall|s: Seq<u8>, p: int, e: int| 0 <= p <= e implies #[trigger] within(crate::section::spec_data_item()(s, p, e), p, e) by {
        lemma_entry_within(s, p, e);
        lemma_code_within(s, p, e);
        lemma_data_within(s, p, e);
    }
}

proof fn lemma_section_within(s: Seq<u8>, p: int, e: int, kind: crate::types::SectionType, m: ModuleView, at: int)
    requires
        0 <= p <= e,
        0 <= at <= e,
    ensures
        spec_section(s, p, e, kind, m, at) matches Err((_, o)) ==> 0 <= o <= e,
{
    broadcast use group_within_basics, group_within_reads;

    lemma_type_item_within();
    lemma_import_item_within();
    lemma_function_item_within();
    lemma_table_item_within();
    lemma_memory_item_within();
    lemma_global_item_within();
    lemma_export_item_within();
    lemma_code_item_within();
    lemma_data_item_within();
    lemma_vec_within(s, p, e, crate::section::spec_type_item());
    lemma_vec_within(s, p, e, crate::section::spec_import_item());
    lemma_vec_within(s, p, e, crate::section::spec_function_item());
    lemma_vec_within(s, p, e, crate::section::spec_table_item());
    lemma_vec_within(s, p, e, crate::section::spec_memory_item());
    lemma_vec_within(s, p, e, crate::section::spec_global_item());
    lemma_vec_within(s, p, e, crate::section::spec_export_item());
    lemma_vec_within(s, p, e, crate::section::spec_code_item());
    lemma_vec_within(s, p, e, crate::section::spec_data_item());
}

proof fn lemma_sections_within(s: Seq<u8>, p: int, m: ModuleView)
    requires
        0 <= p,
    ensures
        spec_sections(s, p, m) matches Err((_, o)) ==> 0 <= o <= s.len(),
    decreases s.len() - p,
{
    broadcast use group_within_basics, group_within_reads;

    if p < s.len() {
        match spec_read_section_type(s, p, s.len() as int) {
            Ok((kind, q)) => {
                match spec_leb(s, q, s.len() as int, IntType::U32) {
                    Ok((n, q2)) => {
                        if q2 + n <= s.len() && q2 + n > p {
                            lemma_section_within(s, q2, q2 + n, kind, m, p);
                            match spec_section(s, q2, q2 + n, kind, m, p) {
                                Ok(m2) => {
                                    lemma_sections_within(s, q2 + n, m2);
                                },
                                Err(_) => {},
                            }
                        }
                    },
                    Err(_) => {},
                }
            },
            Err(_) => {},
        }
    }
}

/// Every error that decoding a module reports lies within the input: at an
/// offset no larger than its length.
pub proof fn lemma_module_error_within(s: Seq<u8>)
    ensures
        spec_module(s) matches Err((_, o)) ==> 0 <= o <= s.len(),
{
    lemma_sections_within(s, 8, crate::wasm::empty_module());
}

} // verus!
