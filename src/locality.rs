//! Decoding depends only on the bytes below the limit it is given: two
//! inputs that agree there decode alike. Hence cutting a module inside one of
//! its sections makes it fail to decode.
use vstd::prelude::*;

use crate::error::{spec_u8, IntType, SpecResult};
use crate::instruction::{
    spec_base_imm, spec_body, spec_extended, spec_extended_imm, spec_i32, spec_i64, spec_if_body,
    spec_instr, spec_instrs_to_end, spec_label_vec, spec_labels, spec_lanes, spec_le32, spec_le64,
    spec_leaf, spec_shuffle, spec_v128, spec_val_type_vec, spec_val_types, spec_vector,
    spec_vector_imm, spec_zero, InstrView,
};
use crate::leb128::{leb_max_len, leb_scan, leb_sum, spec_leb, LebExtent};
use crate::reader::{find_byte, le_value, spec_slice, spec_str};
use crate::section::{
    spec_code, spec_data, spec_export, spec_function, spec_global, spec_import, spec_items, spec_local,
    spec_memory, spec_offset_expr, spec_table, spec_type, spec_vec,
};
use crate::types::{
    spec_block_type, spec_index, spec_lane, spec_limit, spec_mem_arg, spec_read_ref_type,
    spec_read_section_type, spec_read_val_type, spec_u32,
};
use crate::wasm::{empty_module, spec_module, spec_section, spec_sections, ModuleView};
use crate::within::{group_within_basics, group_within_reads};

verus! {

/// `s1` and `s2` hold the same bytes below `e`.
pub open spec fn agree(s1: Seq<u8>, s2: Seq<u8>, e: int) -> bool {
    &&& e <= s1.len()
    &&& e <= s2.len()
    &&& forall|j: int| 0 <= j < e ==> s1[j] == s2[j]
}

proof fn lemma_scan_local(s1: Seq<u8>, s2: Seq<u8>, p: int, e: int, i: nat, k: nat)
    requires
        agree(s1, s2, e),
        0 <= p,
    ensures
        leb_scan(s1, p, e, i, k) == leb_scan(s2, p, e, i, k),
    decreases k - i,
{
    if p + i < e {
        assert(s1[p + i] == s2[p + i]);
        if s1[p + i] >= 128 && i + 1 < k {
            lemma_scan_local(s1, s2, p, e, i + 1, k);
        }
    }
}

proof fn lemma_sum_local(s1: Seq<u8>, s2: Seq<u8>, p: int, e: int, n: nat)
    requires
        agree(s1, s2, e),
        0 <= p,
        p + n <= e,
    ensures
        leb_sum(s1, p, n) == leb_sum(s2, p, n),
    decreases n,
{
    if n > 0 {
        assert(s1[p + n - 1] == s2[p + n - 1]);
        lemma_sum_local(s1, s2, p, e, (n - 1) as nat);
    }
}

proof fn lemma_scan_len_bound(s: Seq<u8>, p: int, e: int, i: nat, k: nat)
    ensures
        leb_scan(s, p, e, i, k) matches LebExtent::Len(n) ==> 1 <= n && p + n <= e,
    decreases k - i,
{
    if p + i < e && s[p + i] >= 128 && i + 1 < k {
        lemma_scan_len_bound(s, p, e, i + 1, k);
    }
}

pub broadcast proof fn lemma_leb_local(s1: Seq<u8>, s2: Seq<u8>, p: int, e: int, ty: IntType)
    requires
        agree(s1, s2, e),
        0 <= p,
    ensures
        #[trigger] spec_leb(s1, p, e, ty) == #[trigger] spec_leb(s2, p, e, ty),
{
    lemma_scan_local(s1, s2, p, e, 0, leb_max_len(ty));
    lemma_scan_len_bound(s1, p, e, 0, leb_max_len(ty));
    match leb_scan(s1, p, e, 0, leb_max_len(ty)) {
        LebExtent::Len(n) => {
            lemma_sum_local(s1, s2, p, e, n);
            assert(s1[p + n - 1] == s2[p + n - 1]);
        },
        _ => {},
    }
}

pub broadcast proof fn lemma_u8_local(s1: Seq<u8>, s2: Seq<u8>, p: int, e: int)
    requires
        agree(s1, s2, e),
        0 <= p,
    ensures
        #[trigger] spec_u8(s1, p, e) == #[trigger] spec_u8(s2, p, e),
{
    if p < e {
        assert(s1[p] == s2[p]);
    }
}

proof fn lemma_le_local(s1: Seq<u8>, s2: Seq<u8>, p: int, e: int, n: nat)
    requires
        agree(s1, s2, e),
        0 <= p,
        p + n <= e,
    ensures
        le_value(s1, p, n) == le_value(s2, p, n),
    decreases n,
{
    if n > 0 {
        assert(s1[p] == s2[p]);
        lemma_le_local(s1, s2, p + 1, e, (n - 1) as nat);
    }
}

pub broadcast group group_local_basics {
    lemma_leb_local,
    lemma_u8_local,
}

pub broadcast proof fn lemma_u32_local(s1: Seq<u8>, s2: Seq<u8>, p: int, e: int)
    requires
        agree(s1, s2, e),
        0 <= p,
    ensures
        #[trigger] spec_u32(s1, p, e) == #[trigger] spec_u32(s2, p, e),
{
    broadcast use group_local_basics, group_within_basics, group_within_reads;

    lemma_leb_local(s1, s2, p, e, IntType::U32);
    lemma_leb_local(s1, s2, p, e, IntType::I32);
    lemma_leb_local(s1, s2, p, e, IntType::I64);
    if p + 4 <= e {
        lemma_le_local(s1, s2, p, e, 4);
    }
    if p + 8 <= e {
        lemma_le_local(s1, s2, p, e, 8);
    }
    if p + 16 <= e {
        lemma_le_local(s1, s2, p + 8, e, 8);
    }
    match spec_u32(s1, p, e) {
        Ok((_, q)) => {
            lemma_leb_local(s1, s2, q, e, IntType::U32);
        },
        Err(_) => {},
    }
    match spec_u8(s1, p, e) {
        Ok((_, q)) => {
            lemma_leb_local(s1, s2, q, e, IntType::U32);
            match spec_u32(s1, q, e) {
                Ok((_, q2)) => {
                    lemma_leb_local(s1, s2, q2, e, IntType::U32);
                },
                Err(_) => {},
            }
        },
        Err(_) => {},
    }
    match spec_leb(s1, p, e, IntType::U32) {
        Ok((n, q)) => {
            if q + n <= e {
                assert(s1.subrange(q, q + n) =~= s2.subrange(q, q + n));
            }
        },
        Err(_) => {},
    }
}

pub broadcast proof fn lemma_index_local(s1: Seq<u8>, s2: Seq<u8>, p: int, e: int)
    requires
        agree(s1, s2, e),
        0 <= p,
    ensures
        #[trigger] spec_index(s1, p, e) == #[trigger] spec_index(s2, p, e),
{
    broadcast use group_local_basics, group_within_basics, group_within_reads;

    lemma_leb_local(s1, s2, p, e, IntType::U32);
    lemma_leb_local(s1, s2, p, e, IntType::I32);
    lemma_leb_local(s1, s2, p, e, IntType::I64);
    if p + 4 <= e {
        lemma_le_local(s1, s2, p, e, 4);
    }
    if p + 8 <= e {
        lemma_le_local(s1, s2, p, e, 8);
    }
    if p + 16 <= e {
        lemma_le_local(s1, s2, p + 8, e, 8);
    }
    match spec_u32(s1, p, e) {
        Ok((_, q)) => {
            lemma_leb_local(s1, s2, q, e, IntType::U32);
        },
        Err(_) => {},
    }
    match spec_u8(s1, p, e) {
        Ok((_, q)) => {
            lemma_leb_local(s1, s2, q, e, IntType::U32);
            match spec_u32(s1, q, e) {
                Ok((_, q2)) => {
                    lemma_leb_local(s1, s2, q2, e, IntType::U32);
                },
                Err(_) => {},
            }
        },
        Err(_) => {},
    }
    match spec_leb(s1, p, e, IntType::U32) {
        Ok((n, q)) => {
            if q + n <= e {
                assert(s1.subrange(q, q + n) =~= s2.subrange(q, q + n));
            }
        },
        Err(_) => {},
    }
}

pub broadcast proof fn lemma_i32_local(s1: Seq<u8>, s2: Seq<u8>, p: int, e: int)
    requires
        agree(s1, s2, e),
        0 <= p,
    ensures
        #[trigger] spec_i32(s1, p, e) == #[trigger] spec_i32(s2, p, e),
{
    broadcast use group_local_basics, group_within_basics, group_within_reads;

    lemma_leb_local(s1, s2, p, e, IntType::U32);
    lemma_leb_local(s1, s2, p, e, IntType::I32);
    lemma_leb_local(s1, s2, p, e, IntType::I64);
    if p + 4 <= e {
        lemma_le_local(s1, s2, p, e, 4);
    }
    if p + 8 <= e {
        lemma_le_local(s1, s2, p, e, 8);
    }
    if p + 16 <= e {
        lemma_le_local(s1, s2, p + 8, e, 8);
    }
    match spec_u32(s1, p, e) {
        Ok((_, q)) => {
            lemma_leb_local(s1, s2, q, e, IntType::U32);
        },
        Err(_) => {},
    }
    match spec_u8(s1, p, e) {
        Ok((_, q)) => {
            lemma_leb_local(s1, s2, q, e, IntType::U32);
            match spec_u32(s1, q, e) {
                Ok((_, q2)) => {
                    lemma_leb_local(s1, s2, q2, e, IntType::U32);
                },
                Err(_) => {},
            }
        },
        Err(_) => {},
    }
    match spec_leb(s1, p, e, IntType::U32) {
        Ok((n, q)) => {
            if q + n <= e {
                assert(s1.subrange(q, q + n) =~= s2.subrange(q, q + n));
            }
        },
        Err(_) => {},
    }
}

pub broadcast proof fn lemma_i64_local(s1: Seq<u8>, s2: Seq<u8>, p: int, e: int)
    requires
        agree(s1, s2, e),
        0 <= p,
    ensures
        #[trigger] spec_i64(s1, p, e) == #[trigger] spec_i64(s2, p, e),
{
    broadcast use group_local_basics, group_within_basics, group_within_reads;

    lemma_leb_local(s1, s2, p, e, IntType::U32);
    lemma_leb_local(s1, s2, p, e, IntType::I32);
    lemma_leb_local(s1, s2, p, e, IntType::I64);
    if p + 4 <= e {
        lemma_le_local(s1, s2, p, e, 4);
    }
    if p + 8 <= e {
        lemma_le_local(s1, s2, p, e, 8);
    }
    if p + 16 <= e {
        lemma_le_local(s1, s2, p + 8, e, 8);
    }
    match spec_u32(s1, p, e) {
        Ok((_, q)) => {
            lemma_leb_local(s1, s2, q, e, IntType::U32);
        },
        Err(_) => {},
    }
    match spec_u8(s1, p, e) {
        Ok((_, q)) => {
            lemma_leb_local(s1, s2, q, e, IntType::U32);
            match spec_u32(s1, q, e) {
                Ok((_, q2)) => {
                    lemma_leb_local(s1, s2, q2, e, IntType::U32);
                },
                Err(_) => {},
            }
        },
        Err(_) => {},
    }
    match spec_leb(s1, p, e, IntType::U32) {
        Ok((n, q)) => {
            if q + n <= e {
                assert(s1.subrange(q, q + n) =~= s2.subrange(q, q + n));
            }
        },
        Err(_) => {},
    }
}

pub broadcast proof fn lemma_le32_local(s1: Seq<u8>, s2: Seq<u8>, p: int, e: int)
    requires
        agree(s1, s2, e),
        0 <= p,
    ensures
        #[trigger] spec_le32(s1, p, e) == #[trigger] spec_le32(s2, p, e),
{
    broadcast use group_local_basics, group_within_basics, group_within_reads;

    lemma_leb_local(s1, s2, p, e, IntType::U32);
    lemma_leb_local(s1, s2, p, e, IntType::I32);
    lemma_leb_local(s1, s2, p, e, IntType::I64);
    if p + 4 <= e {
        lemma_le_local(s1, s2, p, e, 4);
    }
    if p + 8 <= e {
        lemma_le_local(s1, s2, p, e, 8);
    }
    if p + 16 <= e {
        lemma_le_local(s1, s2, p + 8, e, 8);
    }
    match spec_u32(s1, p, e) {
        Ok((_, q)) => {
            lemma_leb_local(s1, s2, q, e, IntType::U32);
        },
        Err(_) => {},
    }
    match spec_u8(s1, p, e) {
        Ok((_, q)) => {
            lemma_leb_local(s1, s2, q, e, IntType::U32);
            match spec_u32(s1, q, e) {
                Ok((_, q2)) => {
                    lemma_leb_local(s1, s2, q2, e, IntType::U32);
                },
                Err(_) => {},
            }
        },
        Err(_) => {},
    }
    match spec_leb(s1, p, e, IntType::U32) {
        Ok((n, q)) => {
            if q + n <= e {
                assert(s1.subrange(q, q + n) =~= s2.subrange(q, q + n));
            }
        },
        Err(_) => {},
    }
}

pub broadcast proof fn lemma_le64_local(s1: Seq<u8>, s2: Seq<u8>, p: int, e: int)
    requires
        agree(s1, s2, e),
        0 <= p,
    ensures
        #[trigger] spec_le64(s1, p, e) == #[trigger] spec_le64(s2, p, e),
{
    broadcast use group_local_basics, group_within_basics, group_within_reads;

    lemma_leb_local(s1, s2, p, e, IntType::U32);
    lemma_leb_local(s1, s2, p, e, IntType::I32);
    lemma_leb_local(s1, s2, p, e, IntType::I64);
    if p + 4 <= e {
        lemma_le_local(s1, s2, p, e, 4);
    }
    if p + 8 <= e {
        lemma_le_local(s1, s2, p, e, 8);
    }
    if p + 16 <= e {
        lemma_le_local(s1, s2, p + 8, e, 8);
    }
    match spec_u32(s1, p, e) {
        Ok((_, q)) => {
            lemma_leb_local(s1, s2, q, e, IntType::U32);
        },
        Err(_) => {},
    }
    match spec_u8(s1, p, e) {
        Ok((_, q)) => {
            lemma_leb_local(s1, s2, q, e, IntType::U32);
            match spec_u32(s1, q, e) {
                Ok((_, q2)) => {
                    lemma_leb_local(s1, s2, q2, e, IntType::U32);
                },
                Err(_) => {},
            }
        },
        Err(_) => {},
    }
    match spec_leb(s1, p, e, IntType::U32) {
        Ok((n, q)) => {
            if q + n <= e {
                assert(s1.subrange(q, q + n) =~= s2.subrange(q, q + n));
            }
        },
        Err(_) => {},
    }
}

pub broadcast proof fn lemma_v128_local(s1: Seq<u8>, s2: Seq<u8>, p: int, e: int)
    requires
        agree(s1, s2, e),
        0 <= p,
    ensures
        #[trigger] spec_v128(s1, p, e) == #[trigger] spec_v128(s2, p, e),
{
    broadcast use group_local_basics, group_within_basics, group_within_reads;

    lemma_leb_local(s1, s2, p, e, IntType::U32);
    lemma_leb_local(s1, s2, p, e, IntType::I32);
    lemma_leb_local(s1, s2, p, e, IntType::I64);
    if p + 4 <= e {
        lemma_le_local(s1, s2, p, e, 4);
    }
    if p + 8 <= e {
        lemma_le_local(s1, s2, p, e, 8);
    }
    if p + 16 <= e {
        lemma_le_local(s1, s2, p + 8, e, 8);
    }
    match spec_u32(s1, p, e) {
        Ok((_, q)) => {
            lemma_leb_local(s1, s2, q, e, IntType::U32);
        },
        Err(_) => {},
    }
    match spec_u8(s1, p, e) {
        Ok((_, q)) => {
            lemma_leb_local(s1, s2, q, e, IntType::U32);
            match spec_u32(s1, q, e) {
                Ok((_, q2)) => {
                    lemma_leb_local(s1, s2, q2, e, IntType::U32);
                },
                Err(_) => {},
            }
        },
        Err(_) => {},
    }
    match spec_leb(s1, p, e, IntType::U32) {
        Ok((n, q)) => {
            if q + n <= e {
                assert(s1.subrange(q, q + n) =~= s2.subrange(q, q + n));
            }
        },
        Err(_) => {},
    }
}

pub broadcast proof fn lemma_zero_local(s1: Seq<u8>, s2: Seq<u8>, p: int, e: int)
    requires
        agree(s1, s2, e),
        0 <= p,
    ensures
        #[trigger] spec_zero(s1, p, e) == #[trigger] spec_zero(s2, p, e),
{
    broadcast use group_local_basics, group_within_basics, group_within_reads;

    lemma_leb_local(s1, s2, p, e, IntType::U32);
    lemma_leb_local(s1, s2, p, e, IntType::I32);
    lemma_leb_local(s1, s2, p, e, IntType::I64);
    if p + 4 <= e {
        lemma_le_local(s1, s2, p, e, 4);
    }
    if p + 8 <= e {
        lemma_le_local(s1, s2, p, e, 8);
    }
    if p + 16 <= e {
        lemma_le_local(s1, s2, p + 8, e, 8);
    }
    match spec_u32(s1, p, e) {
        Ok((_, q)) => {
            lemma_leb_local(s1, s2, q, e, IntType::U32);
        },
        Err(_) => {},
    }
    match spec_u8(s1, p, e) {
        Ok((_, q)) => {
            lemma_leb_local(s1, s2, q, e, IntType::U32);
            match spec_u32(s1, q, e) {
                Ok((_, q2)) => {
                    lemma_leb_local(s1, s2, q2, e, IntType::U32);
                },
                Err(_) => {},
            }
        },
        Err(_) => {},
    }
    match spec_leb(s1, p, e, IntType::U32) {
        Ok((n, q)) => {
            if q + n <= e {
                assert(s1.subrange(q, q + n) =~= s2.subrange(q, q + n));
            }
        },
        Err(_) => {},
    }
}

pub broadcast proof fn lemma_mem_arg_local(s1: Seq<u8>, s2: Seq<u8>, p: int, e: int)
    requires
        agree(s1, s2, e),
        0 <= p,
    ensures
        #[trigger] spec_mem_arg(s1, p, e) == #[trigger] spec_mem_arg(s2, p, e),
{
    broadcast use group_local_basics, group_within_basics, group_within_reads;

    lemma_leb_local(s1, s2, p, e, IntType::U32);
    lemma_leb_local(s1, s2, p, e, IntType::I32);
    lemma_leb_local(s1, s2, p, e, IntType::I64);
    if p + 4 <= e {
        lemma_le_local(s1, s2, p, e, 4);
    }
    if p + 8 <= e {
        lemma_le_local(s1, s2, p, e, 8);
    }
    if p + 16 <= e {
        lemma_le_local(s1, s2, p + 8, e, 8);
    }
    match spec_u32(s1, p, e) {
        Ok((_, q)) => {
            lemma_leb_local(s1, s2, q, e, IntType::U32);
        },
        Err(_) => {},
    }
    match spec_u8(s1, p, e) {
        Ok((_, q)) => {
            lemma_leb_local(s1, s2, q, e, IntType::U32);
            match spec_u32(s1, q, e) {
                Ok((_, q2)) => {
                    lemma_leb_local(s1, s2, q2, e, IntType::U32);
                },
                Err(_) => {},
            }
        },
        Err(_) => {},
    }
    match spec_leb(s1, p, e, IntType::U32) {
        Ok((n, q)) => {
            if q + n <= e {
                assert(s1.subrange(q, q + n) =~= s2.subrange(q, q + n));
            }
        },
        Err(_) => {},
    }
}

pub broadcast proof fn lemma_block_type_local(s1: Seq<u8>, s2: Seq<u8>, p: int, e: int)
    requires
        agree(s1, s2, e),
        0 <= p,
    ensures
        #[trigger] spec_block_type(s1, p, e) == #[trigger] spec_block_type(s2, p, e),
{
    broadcast use group_local_basics, group_within_basics, group_within_reads;

    lemma_leb_local(s1, s2, p, e, IntType::U32);
    lemma_leb_local(s1, s2, p, e, IntType::I32);
    lemma_leb_local(s1, s2, p, e, IntType::I64);
    if p + 4 <= e {
        lemma_le_local(s1, s2, p, e, 4);
    }
    if p + 8 <= e {
        lemma_le_local(s1, s2, p, e, 8);
    }
    if p + 16 <= e {
        lemma_le_local(s1, s2, p + 8, e, 8);
    }
    match spec_u32(s1, p, e) {
        Ok((_, q)) => {
            lemma_leb_local(s1, s2, q, e, IntType::U32);
        },
        Err(_) => {},
    }
    match spec_u8(s1, p, e) {
        Ok((_, q)) => {
            lemma_leb_local(s1, s2, q, e, IntType::U32);
            match spec_u32(s1, q, e) {
                Ok((_, q2)) => {
                    lemma_leb_local(s1, s2, q2, e, IntType::U32);
                },
                Err(_) => {},
            }
        },
        Err(_) => {},
    }
    match spec_leb(s1, p, e, IntType::U32) {
        Ok((n, q)) => {
            if q + n <= e {
                assert(s1.subrange(q, q + n) =~= s2.subrange(q, q + n));
            }
        },
        Err(_) => {},
    }
}

pub broadcast proof fn lemma_read_ref_type_local(s1: Seq<u8>, s2: Seq<u8>, p: int, e: int)
    requires
        agree(s1, s2, e),
        0 <= p,
    ensures
        #[trigger] spec_read_ref_type(s1, p, e) == #[trigger] spec_read_ref_type(s2, p, e),
{
    broadcast use group_local_basics, group_within_basics, group_within_reads;

    lemma_leb_local(s1, s2, p, e, IntType::U32);
    lemma_leb_local(s1, s2, p, e, IntType::I32);
    lemma_leb_local(s1, s2, p, e, IntType::I64);
    if p + 4 <= e {
        lemma_le_local(s1, s2, p, e, 4);
    }
    if p + 8 <= e {
        lemma_le_local(s1, s2, p, e, 8);
    }
    if p + 16 <= e {
        lemma_le_local(s1, s2, p + 8, e, 8);
    }
    match spec_u32(s1, p, e) {
        Ok((_, q)) => {
            lemma_leb_local(s1, s2, q, e, IntType::U32);
        },
        Err(_) => {},
    }
    match spec_u8(s1, p, e) {
        Ok((_, q)) => {
            lemma_leb_local(s1, s2, q, e, IntType::U32);
            match spec_u32(s1, q, e) {
                Ok((_, q2)) => {
                    lemma_leb_local(s1, s2, q2, e, IntType::U32);
                },
                Err(_) => {},
            }
        },
        Err(_) => {},
    }
    match spec_leb(s1, p, e, IntType::U32) {
        Ok((n, q)) => {
            if q + n <= e {
                assert(s1.subrange(q, q + n) =~= s2.subrange(q, q + n));
            }
        },
        Err(_) => {},
    }
}

pub broadcast proof fn lemma_read_val_type_local(s1: Seq<u8>, s2: Seq<u8>, p: int, e: int)
    requires
        agree(s1, s2, e),
        0 <= p,
    ensures
        #[trigger] spec_read_val_type(s1, p, e) == #[trigger] spec_read_val_type(s2, p, e),
{
    broadcast use group_local_basics, group_within_basics, group_within_reads;

    lemma_leb_local(s1, s2, p, e, IntType::U32);
    lemma_leb_local(s1, s2, p, e, IntType::I32);
    lemma_leb_local(s1, s2, p, e, IntType::I64);
    if p + 4 <= e {
        lemma_le_local(s1, s2, p, e, 4);
    }
    if p + 8 <= e {
        lemma_le_local(s1, s2, p, e, 8);
    }
    if p + 16 <= e {
        lemma_le_local(s1, s2, p + 8, e, 8);
    }
    match spec_u32(s1, p, e) {
        Ok((_, q)) => {
            lemma_leb_local(s1, s2, q, e, IntType::U32);
        },
        Err(_) => {},
    }
    match spec_u8(s1, p, e) {
        Ok((_, q)) => {
            lemma_leb_local(s1, s2, q, e, IntType::U32);
            match spec_u32(s1, q, e) {
                Ok((_, q2)) => {
                    lemma_leb_local(s1, s2, q2, e, IntType::U32);
                },
                Err(_) => {},
            }
        },
        Err(_) => {},
    }
    match spec_leb(s1, p, e, IntType::U32) {
        Ok((n, q)) => {
            if q + n <= e {
                assert(s1.subrange(q, q + n) =~= s2.subrange(q, q + n));
            }
        },
        Err(_) => {},
    }
}

pub broadcast proof fn lemma_read_section_type_local(s1: Seq<u8>, s2: Seq<u8>, p: int, e: int)
    requires
        agree(s1, s2, e),
        0 <= p,
    ensures
        #[trigger] spec_read_section_type(s1, p, e) == #[trigger] spec_read_section_type(s2, p, e),
{
    broadcast use group_local_basics, group_within_basics, group_within_reads;

    lemma_leb_local(s1, s2, p, e, IntType::U32);
    lemma_leb_local(s1, s2, p, e, IntType::I32);
    lemma_leb_local(s1, s2, p, e, IntType::I64);
    if p + 4 <= e {
        lemma_le_local(s1, s2, p, e, 4);
    }
    if p + 8 <= e {
        lemma_le_local(s1, s2, p, e, 8);
    }
    if p + 16 <= e {
        lemma_le_local(s1, s2, p + 8, e, 8);
    }
    match spec_u32(s1, p, e) {
        Ok((_, q)) => {
            lemma_leb_local(s1, s2, q, e, IntType::U32);
        },
        Err(_) => {},
    }
    match spec_u8(s1, p, e) {
        Ok((_, q)) => {
            lemma_leb_local(s1, s2, q, e, IntType::U32);
            match spec_u32(s1, q, e) {
                Ok((_, q2)) => {
                    lemma_leb_local(s1, s2, q2, e, IntType::U32);
                },
                Err(_) => {},
            }
        },
        Err(_) => {},
    }
    match spec_leb(s1, p, e, IntType::U32) {
        Ok((n, q)) => {
            if q + n <= e {
                assert(s1.subrange(q, q + n) =~= s2.subrange(q, q + n));
            }
        },
        Err(_) => {},
    }
}

pub broadcast proof fn lemma_limit_local(s1: Seq<u8>, s2: Seq<u8>, p: int, e: int)
    requires
        agree(s1, s2, e),
        0 <= p,
    ensures
        #[trigger] spec_limit(s1, p, e) == #[trigger] spec_limit(s2, p, e),
{
    broadcast use group_local_basics, group_within_basics, group_within_reads;

    lemma_leb_local(s1, s2, p, e, IntType::U32);
    lemma_leb_local(s1, s2, p, e, IntType::I32);
    lemma_leb_local(s1, s2, p, e, IntType::I64);
    if p + 4 <= e {
        lemma_le_local(s1, s2, p, e, 4);
    }
    if p + 8 <= e {
        lemma_le_local(s1, s2, p, e, 8);
    }
    if p + 16 <= e {
        lemma_le_local(s1, s2, p + 8, e, 8);
    }
    match spec_u32(s1, p, e) {
        Ok((_, q)) => {
            lemma_leb_local(s1, s2, q, e, IntType::U32);
        },
        Err(_) => {},
    }
    match spec_u8(s1, p, e) {
        Ok((_, q)) => {
            lemma_leb_local(s1, s2, q, e, IntType::U32);
            match spec_u32(s1, q, e) {
                Ok((_, q2)) => {
                    lemma_leb_local(s1, s2, q2, e, IntType::U32);
                },
                Err(_) => {},
            }
        },
        Err(_) => {},
    }
    match spec_leb(s1, p, e, IntType::U32) {
        Ok((n, q)) => {
            if q + n <= e {
                assert(s1.subrange(q, q + n) =~= s2.subrange(q, q + n));
            }
        },
        Err(_) => {},
    }
}

pub broadcast proof fn lemma_slice_local(s1: Seq<u8>, s2: Seq<u8>, p: int, e: int)
    requires
        agree(s1, s2, e),
        0 <= p,
    ensures
        #[trigger] spec_slice(s1, p, e) == #[trigger] spec_slice(s2, p, e),
{
    broadcast use group_local_basics, group_within_basics, group_within_reads;

    lemma_leb_local(s1, s2, p, e, IntType::U32);
    lemma_leb_local(s1, s2, p, e, IntType::I32);
    lemma_leb_local(s1, s2, p, e, IntType::I64);
    if p + 4 <= e {
        lemma_le_local(s1, s2, p, e, 4);
    }
    if p + 8 <= e {
        lemma_le_local(s1, s2, p, e, 8);
    }
    if p + 16 <= e {
        lemma_le_local(s1, s2, p + 8, e, 8);
    }
    match spec_u32(s1, p, e) {
        Ok((_, q)) => {
            lemma_leb_local(s1, s2, q, e, IntType::U32);
        },
        Err(_) => {},
    }
    match spec_u8(s1, p, e) {
        Ok((_, q)) => {
            lemma_leb_local(s1, s2, q, e, IntType::U32);
            match spec_u32(s1, q, e) {
                Ok((_, q2)) => {
                    lemma_leb_local(s1, s2, q2, e, IntType::U32);
                },
                Err(_) => {},
            }
        },
        Err(_) => {},
    }
    match spec_leb(s1, p, e, IntType::U32) {
        Ok((n, q)) => {
            if q + n <= e {
                assert(s1.subrange(q, q + n) =~= s2.subrange(q, q + n));
            }
        },
        Err(_) => {},
    }
}

pub broadcast proof fn lemma_str_local(s1: Seq<u8>, s2: Seq<u8>, p: int, e: int)
    requires
        agree(s1, s2, e),
        0 <= p,
    ensures
        #[trigger] spec_str(s1, p, e) == #[trigger] spec_str(s2, p, e),
{
    broadcast use group_local_basics, group_within_basics, group_within_reads;

    lemma_leb_local(s1, s2, p, e, IntType::U32);
    lemma_leb_local(s1, s2, p, e, IntType::I32);
    lemma_leb_local(s1, s2, p, e, IntType::I64);
    if p + 4 <= e {
        lemma_le_local(s1, s2, p, e, 4);
    }
    if p + 8 <= e {
        lemma_le_local(s1, s2, p, e, 8);
    }
    if p + 16 <= e {
        lemma_le_local(s1, s2, p + 8, e, 8);
    }
    match spec_u32(s1, p, e) {
        Ok((_, q)) => {
            lemma_leb_local(s1, s2, q, e, IntType::U32);
        },
        Err(_) => {},
    }
    match spec_u8(s1, p, e) {
        Ok((_, q)) => {
            lemma_leb_local(s1, s2, q, e, IntType::U32);
            match spec_u32(s1, q, e) {
                Ok((_, q2)) => {
                    lemma_leb_local(s1, s2, q2, e, IntType::U32);
                },
                Err(_) => {},
            }
        },
        Err(_) => {},
    }
    match spec_leb(s1, p, e, IntType::U32) {
        Ok((n, q)) => {
            if q + n <= e {
                assert(s1.subrange(q, q + n) =~= s2.subrange(q, q + n));
            }
        },
        Err(_) => {},
    }
}

pub broadcast proof fn lemma_lane_local(s1: Seq<u8>, s2: Seq<u8>, p: int, e: int, max: u8)
    requires
        agree(s1, s2, e),
        0 <= p,
    ensures
        #[trigger] spec_lane(s1, p, e, max) == #[trigger] spec_lane(s2, p, e, max),
{
    broadcast use group_local_basics;

}

pub broadcast group group_local_reads {
    lemma_u32_local,
    lemma_index_local,
    lemma_i32_local,
    lemma_i64_local,
    lemma_le32_local,
    lemma_le64_local,
    lemma_v128_local,
    lemma_zero_local,
    lemma_mem_arg_local,
    lemma_block_type_local,
    lemma_read_ref_type_local,
    lemma_read_val_type_local,
    lemma_read_section_type_local,
    lemma_limit_local,
    lemma_slice_local,
    lemma_str_local,
    lemma_lane_local,
}

proof fn lemma_lanes_local(s1: Seq<u8>, s2: Seq<u8>, p: int, e: int, k: nat, acc: int)
    requires
        agree(s1, s2, e),
        0 <= p,
    ensures
        spec_lanes(s1, p, e, k, acc) == spec_lanes(s2, p, e, k, acc),
    decreases 16 - k,
{
    broadcast use group_local_basics, group_within_basics, group_within_reads, group_local_reads;

    if k < 16 {
        match spec_lane(s1, p, e, 16) {
            Ok((l, q)) => {
                lemma_lanes_local(s1, s2, q, e, k + 1, acc + l.0 * crate::reader::pow256(k));
            },
            Err(_) => {},
        }
    }
}

proof fn lemma_labels_local(s1: Seq<u8>, s2: Seq<u8>, p: int, e: int, n: nat, acc: Seq<crate::types::LabelIdx>)
    requires
        agree(s1, s2, e),
        0 <= p,
    ensures
        spec_labels(s1, p, e, n, acc) == spec_labels(s2, p, e, n, acc),
    decreases n,
{
    broadcast use group_local_basics, group_within_basics, group_within_reads, group_local_reads;

    if n > 0 {
        match spec_index(s1, p, e) {
            Ok((v, q)) => {
                lemma_labels_local(s1, s2, q, e, (n - 1) as nat, acc.push(crate::types::LabelIdx(v)));
            },
            Err(_) => {},
        }
    }
}

proof fn lemma_val_types_local(s1: Seq<u8>, s2: Seq<u8>, p: int, e: int, n: nat, acc: Seq<crate::types::ValType>)
    requires
        agree(s1, s2, e),
        0 <= p,
    ensures
        spec_val_types(s1, p, e, n, acc) == spec_val_types(s2, p, e, n, acc),
    decreases n,
{
    broadcast use group_local_basics, group_within_basics, group_within_reads, group_local_reads;

    if n > 0 {
        match spec_read_val_type(s1, p, e) {
            Ok((v, q)) => {
                lemma_val_types_local(s1, s2, q, e, (n - 1) as nat, acc.push(v));
            },
            Err(_) => {},
        }
    }
}

proof fn lemma_vecs_local(s1: Seq<u8>, s2: Seq<u8>, p: int, e: int)
    requires
        agree(s1, s2, e),
        0 <= p,
    ensures
        spec_label_vec(s1, p, e) == spec_label_vec(s2, p, e),
        spec_val_type_vec(s1, p, e) == spec_val_type_vec(s2, p, e),
        spec_shuffle(s1, p, e) == spec_shuffle(s2, p, e),
{
    broadcast use group_local_basics, group_within_basics, group_within_reads, group_local_reads;

    match spec_u32(s1, p, e) {
        Ok((n, q)) => {
            lemma_labels_local(s1, s2, q, e, n as nat, Seq::empty());
            lemma_val_types_local(s1, s2, q, e, n as nat, Seq::empty());
        },
        Err(_) => {},
    }
    lemma_lanes_local(s1, s2, p, e, 0, 0);
}

proof fn lemma_leaf_local(s1: Seq<u8>, s2: Seq<u8>, q: int, e: int, op: u8)
    requires
        agree(s1, s2, e),
        1 <= q,
    ensures
        spec_leaf(s1, q, e, op) == spec_leaf(s2, q, e, op),
{
    broadcast use group_local_basics, group_within_basics, group_within_reads, group_local_reads;

    lemma_vecs_local(s1, s2, q, e);
    match spec_u32(s1, q, e) {
        Ok((sub, q2)) => {
            lemma_vecs_local(s1, s2, q2, e);
            assert(spec_extended_imm(s1, q2, e, sub, q) == spec_extended_imm(s2, q2, e, sub, q));
            assert(spec_vector_imm(s1, q2, e, sub, q) == spec_vector_imm(s2, q2, e, sub, q));
        },
        Err(_) => {},
    }
    assert(spec_extended(s1, q, e) == spec_extended(s2, q, e));
    assert(spec_vector(s1, q, e) == spec_vector(s2, q, e));
    assert(spec_base_imm(s1, q, e, op) == spec_base_imm(s2, q, e, op));
}

proof fn lemma_instr_local(s1: Seq<u8>, s2: Seq<u8>, p: int, e: int)
    requires
        agree(s1, s2, e),
        0 <= p,
    ensures
        spec_instr(s1, p, e) == spec_instr(s2, p, e),
    decreases e - p, 0nat,
{
    broadcast use group_local_basics, group_within_basics, group_within_reads, group_local_reads;

    if p < e {
        assert(s1[p] == s2[p]);
        let op = s1[p];
        lemma_vecs_local(s1, s2, p + 1, e);
        crate::within::lemma_vecs_within(s1, p + 1, e);
        if op == 0x02 || op == 0x03 || op == 0x04 {
            match spec_block_type(s1, p + 1, e) {
                Ok((bt, q)) => {
                    lemma_body_local(s1, s2, q, e, Seq::empty());
                    lemma_if_local(s1, s2, q, e, Seq::empty(), Seq::empty(), false);
                },
                Err(_) => {},
            }
        } else if op == 0x0E {
            match spec_label_vec(s1, p + 1, e) {
                Ok((_, q)) => {},
                Err(_) => {},
            }
        } else if op != 0x1C {
            lemma_leaf_local(s1, s2, p + 1, e, op);
        }
    }
}

proof fn lemma_body_local(s1: Seq<u8>, s2: Seq<u8>, p: int, e: int, acc: Seq<InstrView>)
    requires
        agree(s1, s2, e),
        0 <= p,
    ensures
        spec_body(s1, p, e, acc) == spec_body(s2, p, e, acc),
    decreases e - p, 1nat,
{
    if p < e {
        assert(s1[p] == s2[p]);
        if s1[p] != 0x0B {
            lemma_instr_local(s1, s2, p, e);
            match spec_instr(s1, p, e) {
                Ok((i, q)) => {
                    if p < q <= e {
                        lemma_body_local(s1, s2, q, e, acc.push(i));
                    }
                },
                Err(_) => {},
            }
        }
    }
}

proof fn lemma_if_local(s1: Seq<u8>, s2: Seq<u8>, p: int, e: int, a: Seq<InstrView>, b: Seq<InstrView>, in_else: bool)
    requires
        agree(s1, s2, e),
        0 <= p,
    ensures
        spec_if_body(s1, p, e, a, b, in_else) == spec_if_body(s2, p, e, a, b, in_else),
    decreases e - p, 1nat,
{
    if p < e {
        assert(s1[p] == s2[p]);
        if s1[p] != 0x0B {
            if s1[p] == 0x05 {
                if !in_else {
                    lemma_if_local(s1, s2, p + 1, e, a, b, true);
                }
            } else {
                lemma_instr_local(s1, s2, p, e);
                match spec_instr(s1, p, e) {
                    Ok((i, q)) => {
                        if p < q <= e {
                            if in_else {
                                lemma_if_local(s1, s2, q, e, a, b.push(i), true);
                            } else {
                                lemma_if_local(s1, s2, q, e, a.push(i), b, false);
                            }
                        }
                    },
                    Err(_) => {},
                }
            }
        }
    }
}

proof fn lemma_to_end_local(s1: Seq<u8>, s2: Seq<u8>, p: int, e: int, acc: Seq<InstrView>)
    requires
        agree(s1, s2, e),
        0 <= p,
    ensures
        spec_instrs_to_end(s1, p, e, acc) == spec_instrs_to_end(s2, p, e, acc),
    decreases e - p,
{
    if p < e {
        lemma_instr_local(s1, s2, p, e);
        match spec_instr(s1, p, e) {
            Ok((i, q)) => {
                if p < q <= e {
                    lemma_to_end_local(s1, s2, q, e, acc.push(i));
                }
            },
            Err(_) => {},
        }
    }
}

/// An item decoder that depends only on the bytes below its limit.
pub open spec fn item_local<T>(item: spec_fn(Seq<u8>, int, int) -> SpecResult<T>) -> bool {
    forall|s1: Seq<u8>, s2: Seq<u8>, p: int, e: int| agree(s1, s2, e) && 0 <= p ==> #[trigger] item(s1, p, e) == #[trigger] item(s2, p, e)
}

proof fn lemma_items_local<T>(s1: Seq<u8>, s2: Seq<u8>, p: int, e: int, n: nat, item: spec_fn(Seq<u8>, int, int) -> SpecResult<T>, acc: Seq<T>)
    requires
        agree(s1, s2, e),
        0 <= p <= e,
        item_local(item),
        crate::within::item_within(item),
    ensures
        spec_items(s1, p, e, n, item, acc) == spec_items(s2, p, e, n, item, acc),
    decreases n,
{
    if n > 0 {
        assert(item(s1, p, e) == item(s2, p, e));
        match item(s1, p, e) {
            Ok((x, q)) => {
                assert(crate::within::within(item(s1, p, e), p, e));
                lemma_items_local(s1, s2, q, e, (n - 1) as nat, item, acc.push(x));
            },
            Err(_) => {},
        }
    }
}

proof fn lemma_vec_local<T>(s1: Seq<u8>, s2: Seq<u8>, p: int, e: int, item: spec_fn(Seq<u8>, int, int) -> SpecResult<T>)
    requires
        agree(s1, s2, e),
        0 <= p <= e,
        item_local(item),
        crate::within::item_within(item),
    ensures
        spec_vec(s1, p, e, item) == spec_vec(s2, p, e, item),
{
    broadcast use group_local_basics, group_within_basics, group_within_reads, group_local_reads;

    match spec_u32(s1, p, e) {
        Ok((n, q)) => {
            lemma_items_local(s1, s2, q, e, n as nat, item, Seq::empty());
        },
        Err(_) => {},
    }
}

proof fn lemma_find_byte_local(s1: Seq<u8>, s2: Seq<u8>, p: int, e: int, b: u8)
    requires
        agree(s1, s2, e),
        0 <= p,
    ensures
        find_byte(s1, p, e, b) == find_byte(s2, p, e, b),
    decreases e - p,
{
    if p < e {
        assert(s1[p] == s2[p]);
        lemma_find_byte_local(s1, s2, p + 1, e, b);
    }
}

proof fn lemma_entry_local(s1: Seq<u8>, s2: Seq<u8>, p: int, e: int)
    requires
        agree(s1, s2, e),
        0 <= p,
    ensures
        spec_type(s1, p, e) == spec_type(s2, p, e),
        spec_import(s1, p, e) == spec_import(s2, p, e),
        spec_function(s1, p, e) == spec_function(s2, p, e),
        spec_table(s1, p, e) == spec_table(s2, p, e),
        spec_memory(s1, p, e) == spec_memory(s2, p, e),
        spec_global(s1, p, e) == spec_global(s2, p, e),
        spec_export(s1, p, e) == spec_export(s2, p, e),
        spec_local(s1, p, e) == spec_local(s2, p, e),
        spec_code(s1, p, e) == spec_code(s2, p, e),
        spec_data(s1, p, e) == spec_data(s2, p, e),
{
    broadcast use group_local_basics, group_within_basics, group_within_reads, group_local_reads;

    lemma_vecs_local(s1, s2, p, e);
    match spec_u8(s1, p, e) {
        Ok((_, q)) => {
            lemma_vecs_local(s1, s2, q, e);
            crate::within::lemma_vecs_within(s1, q, e);
            match spec_val_type_vec(s1, q, e) {
                Ok((_, q2)) => {
                    lemma_vecs_local(s1, s2, q2, e);
                },
                Err(_) => {},
            }
        },
        Err(_) => {},
    }
    match spec_read_val_type(s1, p, e) {
        Ok((_, q)) => {
            match spec_u8(s1, q, e) {
                Ok((_, q2)) => {
                    lemma_body_local(s1, s2, q2, e, Seq::empty());
                },
                Err(_) => {},
            }
        },
        Err(_) => {},
    }
    match spec_str(s1, p, e) {
        Ok((_, q)) => {
            match spec_str(s1, q, e) {
                Ok((_, q2)) => {
                    match spec_u8(s1, q2, e) {
                        Ok((_, q3)) => {},
                        Err(_) => {},
                    }
                },
                Err(_) => {},
            }
            match spec_u8(s1, q, e) {
                Ok((_, q2)) => {},
                Err(_) => {},
            }
        },
        Err(_) => {},
    }
    lemma_code_local(s1, s2, p, e);
    lemma_data_local(s1, s2, p, e);
}

proof fn lemma_local_item_local()
    ensures
        item_local(crate::section::spec_local_item()),
        crate::within::item_within(crate::section::spec_local_item()),
{
    broadcast use group_local_basics, group_within_basics, group_within_reads, group_local_reads;

    assert forall|s1: Seq<u8>, s2: Seq<u8>, p: int, e: int| agree(s1, s2, e) && 0 <= p implies #[trigger] crate::section::spec_local_item()(s1, p, e) == #[trigger] crate::section::spec_local_item()(s2, p, e) by {
        match spec_u32(s1, p, e) {
            Ok((_, q)) => {},
            Err(_) => {},
        }
    }
    crate::within::lemma_local_item_within();
}

proof fn lemma_code_local(s1: Seq<u8>, s2: Seq<u8>, p: int, e: int)
    requires
        agree(s1, s2, e),
        0 <= p,
    ensures
        spec_code(s1, p, e) == spec_code(s2, p, e),
{
    broadcast use group_local_basics, group_within_basics, group_within_reads, group_local_reads;

    match spec_leb(s1, p, e, IntType::U32) {
        Ok((n, q)) => {
            if q + n <= e && n > 0 {
                assert(s1[q + n - 1] == s2[q + n - 1]);
                lemma_local_item_local();
                lemma_vec_local(s1, s2, q, q + n - 1, crate::section::spec_local_item());
                crate::within::lemma_vec_within_pub(s1, q, q + n - 1, crate::section::spec_local_item());
                match spec_vec(s1, q, q + n - 1, crate::section::spec_local_item()) {
                    Ok((_, q2)) => {
                        lemma_to_end_local(s1, s2, q2, q + n - 1, Seq::empty());
                    },
                    Err(_) => {},
                }
            }
        },
        Err(_) => {},
    }
}

proof fn lemma_data_local(s1: Seq<u8>, s2: Seq<u8>, p: int, e: int)
    requires
        agree(s1, s2, e),
        0 <= p,
    ensures
        spec_data(s1, p, e) == spec_data(s2, p, e),
{
    broadcast use group_local_basics, group_within_basics, group_within_reads, group_local_reads;

    match spec_u8(s1, p, e) {
        Ok((mode, q)) => {
            let q2 = if mode == 2 {
                match spec_index(s1, q, e) {
                    Ok((_, q2)) => q2,
                    Err(_) => q,
                }
            } else {
                q
            };
            lemma_find_byte_local(s1, s2, q2, e, 0x0B);
            crate::reader::lemma_find_byte_range(s1, q2, e, 0x0B);
            match find_byte(s1, q2, e, 0x0B) {
                Some(k) => {
                    lemma_to_end_local(s1, s2, q2, k, Seq::empty());
                },
                None => {},
            }
            assert(spec_offset_expr(s1, q2, e) == spec_offset_expr(s2, q2, e));
        },
        Err(_) => {},
    }
}

proof fn lemma_type_item_local()
    ensures
        item_local(crate::section::spec_type_item()),
        crate::within::item_within(crate::section::spec_type_item()),
{
    assert forall|s1: Seq<u8>, s2: Seq<u8>, p: int, e: int| agree(s1, s2, e) && 0 <= p implies #[trigger] crate::section::spec_type_item()(s1, p, e) == #[trigger] crate::section::spec_type_item()(s2, p, e) by {
        lemma_entry_local(s1, s2, p, e);
    }
    crate::within::lemma_type_item_within();
}

proof fn lemma_import_item_local()
    ensures
        item_local(crate::section::spec_import_item()),
        crate::within::item_within(crate::section::spec_import_item()),
{
    assert forall|s1: Seq<u8>, s2: Seq<u8>, p: int, e: int| agree(s1, s2, e) && 0 <= p implies #[trigger] crate::section::spec_import_item()(s1, p, e) == #[trigger] crate::section::spec_import_item()(s2, p, e) by {
        lemma_entry_local(s1, s2, p, e);
    }
    crate::within::lemma_import_item_within();
}

proof fn lemma_function_item_local()
    ensures
        item_local(crate::section::spec_function_item()),
        crate::within::item_within(crate::section::spec_function_item()),
{
    assert forall|s1: Seq<u8>, s2: Seq<u8>, p: int, e: int| agree(s1, s2, e) && 0 <= p implies #[trigger] crate::section::spec_function_item()(s1, p, e) == #[trigger] crate::section::spec_function_item()(s2, p, e) by {
        lemma_entry_local(s1, s2, p, e);
    }
    crate::within::lemma_function_item_within();
}

proof fn lemma_table_item_local()
    ensures
        item_local(crate::section::spec_table_item()),
        crate::within::item_within(crate::section::spec_table_item()),
{
    assert forall|s1: Seq<u8>, s2: Seq<u8>, p: int, e: int| agree(s1, s2, e) && 0 <= p implies #[trigger] crate::section::spec_table_item()(s1, p, e) == #[trigger] crate::section::spec_table_item()(s2, p, e) by {
        lemma_entry_local(s1, s2, p, e);
    }
    crate::within::lemma_table_item_within();
}

proof fn lemma_memory_item_local()
    ensures
        item_local(crate::section::spec_memory_item()),
        crate::within::item_within(crate::section::spec_memory_item()),
{
    assert forall|s1: Seq<u8>, s2: Seq<u8>, p: int, e: int| agree(s1, s2, e) && 0 <= p implies #[trigger] crate::section::spec_memory_item()(s1, p, e) == #[trigger] crate::section::spec_memory_item()(s2, p, e) by {
        lemma_entry_local(s1, s2, p, e);
    }
    crate::within::lemma_memory_item_within();
}

proof fn lemma_global_item_local()
    ensures
        item_local(crate::section::spec_global_item()),
        crate::within::item_within(crate::section::spec_global_item()),
{
    assert forall|s1: Seq<u8>, s2: Seq<u8>, p: int, e: int| agree(s1, s2, e) && 0 <= p implies #[trigger] crate::section::spec_global_item()(s1, p, e) == #[trigger] crate::section::spec_global_item()(s2, p, e) by {
        lemma_entry_local(s1, s2, p, e);
    }
    crate::within::lemma_global_item_within();
}

proof fn lemma_export_item_local()
    ensures
        item_local(crate::section::spec_export_item()),
        crate::within::item_within(crate::section::spec_export_item()),
{
    assert forall|s1: Seq<u8>, s2: Seq<u8>, p: int, e: int| agree(s1, s2, e) && 0 <= p implies #[trigger] crate::section::spec_export_item()(s1, p, e) == #[trigger] crate::section::spec_export_item()(s2, p, e) by {
        lemma_entry_local(s1, s2, p, e);
    }
    crate::within::lemma_export_item_within();
}

proof fn lemma_code_item_local()
    ensures
        item_local(crate::section::spec_code_item()),
        crate::within::item_within(crate::section::spec_code_item()),
{
    assert forall|s1: Seq<u8>, s2: Seq<u8>, p: int, e: int| agree(s1, s2, e) && 0 <= p implies #[trigger] crate::section::spec_code_item()(s1, p, e) == #[trigger] crate::section::spec_code_item()(s2, p, e) by {
        lemma_entry_local(s1, s2, p, e);
    }
    crate::within::lemma_code_item_within();
}

proof fn lemma_data_item_local()
    ensures
        item_local(crate::section::spec_data_item()),
        crate::within::item_within(crate::section::spec_data_item()),
{
    assert forall|s1: Seq<u8>, s2: Seq<u8>, p: int, e: int| agree(s1, s2, e) && 0 <= p implies #[trigger] crate::section::spec_data_item()(s1, p, e) == #[trigger] crate::section::spec_data_item()(s2, p, e) by {
        lemma_entry_local(s1, s2, p, e);
    }
    crate::within::lemma_data_item_within();
}

proof fn lemma_section_local(s1: Seq<u8>, s2: Seq<u8>, p: int, e: int, kind: crate::types::SectionType, m: ModuleView, at: int)
    requires
        agree(s1, s2, e),
        0 <= p <= e,
    ensures
        spec_section(s1, p, e, kind, m, at) == spec_section(s2, p, e, kind, m, at),
{
    broadcast use group_local_basics, group_within_basics, group_within_reads, group_local_reads;

    lemma_type_item_local();
    lemma_vec_local(s1, s2, p, e, crate::section::spec_type_item());
    lemma_import_item_local();
    lemma_vec_local(s1, s2, p, e, crate::section::spec_import_item());
    lemma_function_item_local();
    lemma_vec_local(s1, s2, p, e, crate::section::spec_function_item());
    lemma_table_item_local();
    lemma_vec_local(s1, s2, p, e, crate::section::spec_table_item());
    lemma_memory_item_local();
    lemma_vec_local(s1, s2, p, e, crate::section::spec_memory_item());
    lemma_global_item_local();
    lemma_vec_local(s1, s2, p, e, crate::section::spec_global_item());
    lemma_export_item_local();
    lemma_vec_local(s1, s2, p, e, crate::section::spec_export_item());
    lemma_code_item_local();
    lemma_vec_local(s1, s2, p, e, crate::section::spec_code_item());
    lemma_data_item_local();
    lemma_vec_local(s1, s2, p, e, crate::section::spec_data_item());
}

proof fn lemma_scan_limit(s: Seq<u8>, q: int, e1: int, e2: int, i: nat, k: nat)
    requires
        0 <= q,
        e2 <= e1,
    ensures
        leb_scan(s, q, e2, i, k) matches LebExtent::Len(n) ==> leb_scan(s, q, e1, i, k) == leb_scan(s, q, e2, i, k),
        leb_scan(s, q, e1, i, k) matches LebExtent::Len(n) && q + n <= e2 ==> leb_scan(s, q, e1, i, k) == leb_scan(s, q, e2, i, k),
    decreases k - i,
{
    if i + 1 < k {
        lemma_scan_limit(s, q, e1, e2, i + 1, k);
    }
    lemma_scan_len_bound(s, q, e1, i, k);
    lemma_scan_len_bound(s, q, e2, i, k);
    lemma_scan_len_bound(s, q, e1, i + 1, k);
}

/// A LEB128 integer that ends before both limits decodes alike under either.
proof fn lemma_leb_limit(s: Seq<u8>, q: int, e1: int, e2: int, ty: IntType)
    requires
        0 <= q,
        e2 <= e1,
    ensures
        spec_leb(s, q, e2, ty) is Ok ==> spec_leb(s, q, e1, ty) == spec_leb(s, q, e2, ty),
        spec_leb(s, q, e1, ty) matches Ok((_, q2)) && q2 <= e2 ==> spec_leb(s, q, e1, ty) == spec_leb(s, q, e2, ty),
{
    lemma_scan_limit(s, q, e1, e2, 0, leb_max_len(ty));
}

/// The sections of `s` scanned from `p` meet one that starts before the cut
/// `k` and ends after it.
pub open spec fn cut_inside(s: Seq<u8>, p: int, m: ModuleView, k: int) -> bool
    decreases s.len() - p,
    via cut_inside_decreases
{
    if p >= s.len() || p < 0 || k <= p {
        false
    } else {
        match spec_read_section_type(s, p, s.len() as int) {
            Ok((kind, q)) => match spec_leb(s, q, s.len() as int, IntType::U32) {
                Ok((n, q2)) => if q2 + n > s.len() {
                    false
                } else if k < q2 + n {
                    true
                } else {
                    match spec_section(s, q2, q2 + n, kind, m, p) {
                        Ok(m2) => cut_inside(s, q2 + n, m2, k),
                        Err(_) => false,
                    }
                },
                Err(_) => false,
            },
            Err(_) => false,
        }
    }
}

#[via_fn]
proof fn cut_inside_decreases(s: Seq<u8>, p: int, m: ModuleView, k: int) {
    if 0 <= p < s.len() {
        match spec_read_section_type(s, p, s.len() as int) {
            Ok((kind, q)) => {
                crate::leb128::lemma_leb_advances(s, q, s.len() as int, IntType::U32);
            },
            Err(_) => {},
        }
    }
}

proof fn lemma_cut_sections(s: Seq<u8>, p: int, m: ModuleView, k: int)
    requires
        0 <= p,
        k <= s.len(),
        cut_inside(s, p, m, k),
    ensures
        spec_sections(s.subrange(0, k), p, m) is Err,
    decreases s.len() - p,
{
    broadcast use group_local_basics, group_within_basics, group_within_reads, group_local_reads;

    let t = s.subrange(0, k);
    let len = s.len() as int;
    assert(agree(s, t, k));
    assert(t[p] == s[p]);
    assert(spec_read_section_type(t, p, k) == spec_read_section_type(s, p, len));
    let (kind, q) = spec_read_section_type(s, p, len)->Ok_0;
    let (n, q2) = spec_leb(s, q, len, IntType::U32)->Ok_0;
    lemma_leb_limit(s, q, len, k, IntType::U32);
    lemma_leb_local(s, t, q, k, IntType::U32);
    if k < q2 + n {
        match spec_leb(t, q, k, IntType::U32) {
            Ok(_) => {
                assert(spec_leb(t, q, k, IntType::U32) == spec_leb(s, q, len, IntType::U32));
            },
            Err(_) => {},
        }
    } else {
        assert(spec_leb(t, q, k, IntType::U32) == spec_leb(s, q, len, IntType::U32));
        assert(agree(s, t, q2 + n));
        lemma_section_local(s, t, q2, q2 + n, kind, m, p);
        let m2 = spec_section(s, q2, q2 + n, kind, m, p)->Ok_0;
        lemma_cut_sections(s, q2 + n, m2, k);
    }
}

/// Cutting a module inside its header, or inside one of its sections, makes
/// it fail to decode; its error then lies within what is left.
pub proof fn lemma_truncated_module_fails(s: Seq<u8>, k: int)
    requires
        0 <= k < s.len(),
        k < 8 || cut_inside(s, 8, empty_module(), k),
    ensures
        spec_module(s.subrange(0, k)) is Err,
        spec_module(s.subrange(0, k)) matches Err((_, o)) ==> 0 <= o <= k,
{
    let t = s.subrange(0, k);
    crate::within::lemma_module_error_within(t);
    if k >= 8 {
        lemma_cut_sections(s, 8, empty_module(), k);
    }
}

proof fn lemma_prefix_sections(s: Seq<u8>, u: Seq<u8>, p: int, m: ModuleView)
    requires
        0 <= p,
        s.len() <= u.len(),
        agree(s, u, s.len() as int),
        spec_sections(s, p, m) is Ok,
    ensures
        p <= s.len() ==> spec_sections(u, p, m) == spec_sections(u, s.len() as int, spec_sections(s, p, m)->Ok_0),
    decreases s.len() - p,
{
    broadcast use group_local_basics, group_within_basics, group_within_reads, group_local_reads;

    let len = s.len() as int;
    if p < len {
        assert(u[p] == s[p]);
        assert(spec_read_section_type(u, p, u.len() as int) == spec_read_section_type(s, p, len));
        let (kind, q) = spec_read_section_type(s, p, len)->Ok_0;
        let (n, q2) = spec_leb(s, q, len, IntType::U32)->Ok_0;
        lemma_leb_local(s, u, q, len, IntType::U32);
        lemma_leb_limit(u, q, u.len() as int, len, IntType::U32);
        assert(spec_leb(u, q, u.len() as int, IntType::U32) == spec_leb(s, q, len, IntType::U32));
        assert(agree(s, u, q2 + n));
        lemma_section_local(s, u, q2, q2 + n, kind, m, p);
        let m2 = spec_section(s, q2, q2 + n, kind, m, p)->Ok_0;
        lemma_prefix_sections(s, u, q2 + n, m2);
    }
}

/// Appending one section, of a known kind and with a payload shorter than
/// 128 bytes, to the bytes of a module gives the module with that section
/// added, or the section's own error: every section is reflected once, in
/// the order of the input, and a second section of a kind already present
/// is refused.
pub proof fn lemma_append_section(s: Seq<u8>, m: ModuleView, id: u8, payload: Seq<u8>)
    requires
        spec_module(s) == Ok::<ModuleView, crate::error::SpecErr>(m),
        payload.len() < 128,
        crate::types::spec_section_type(id) is Some,
    ensures
        ({
            let u = s + seq![id, payload.len() as u8] + payload;
            spec_module(u) == spec_section(
                u,
                s.len() + 2 as int,
                u.len() as int,
                crate::types::spec_section_type(id)->Some_0,
                m,
                s.len() as int,
            )
        }),
{
    broadcast use group_local_basics, group_within_basics, group_within_reads, group_local_reads;

    let u = s + seq![id, payload.len() as u8] + payload;
    let len = s.len() as int;
    assert(agree(s, u, len));
    assert(s.len() >= 8);
    assert(u[0] == s[0] && u[1] == s[1] && u[2] == s[2] && u[3] == s[3]);
    assert(u[4] == s[4] && u[5] == s[5] && u[6] == s[6] && u[7] == s[7]);
    lemma_prefix_sections(s, u, 8, empty_module());
    assert(u[len] == id);
    assert(u[len + 1] == payload.len() as u8);
    reveal_with_fuel(leb_scan, 2);
    reveal_with_fuel(leb_sum, 2);
    reveal_with_fuel(crate::leb128::pow128, 2);
    vstd::arithmetic::power2::lemma2_to64();
    assert(spec_leb(u, len + 1, u.len() as int, IntType::U32) == Ok::<(int, int), crate::error::SpecErr>((payload.len() as int, len + 2)));
    let kind = crate::types::spec_section_type(id)->Some_0;
    match spec_section(u, len + 2, u.len() as int, kind, m, len) {
        Ok(m2) => {
            assert(spec_sections(u, u.len() as int, m2) == Ok::<ModuleView, crate::error::SpecErr>(m2));
        },
        Err(_) => {},
    }
}

} // verus!
