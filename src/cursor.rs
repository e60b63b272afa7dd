//! The cursor of a frame: a path of indices into the instruction tree, and
//! how it moves from one instruction to the next.
use vstd::prelude::*;

use crate::instruction::{instr_view, instrs_view, lemma_instrs_view_index, InstrView, Instruction};

verus! {

/// The sequence that the last index of `path[start..]` points into, walking
/// down from `body`, and how many trailing indices belong to that innermost
/// level: one, or two inside an if-else, whose branch comes first.
pub open spec fn locate(body: Seq<InstrView>, path: Seq<usize>, start: int) -> Option<(Seq<InstrView>, nat)>
    decreases path.len() - start,
{
    if start < 0 || start >= path.len() {
        None
    } else if path.len() - start == 1 {
        Some((body, 1))
    } else if path[start] >= body.len() {
        None
    } else {
        match body[path[start] as int] {
            InstrView::Block(_, inner) => locate(inner, path, start + 1),
            InstrView::Loop(_, inner) => locate(inner, path, start + 1),
            InstrView::If(_, inner) => locate(inner, path, start + 1),
            InstrView::IfElse(_, a, b) => if path.len() - start < 3 || path[start + 1] > 1 {
                None
            } else {
                match locate(if path[start + 1] == 0 { a } else { b }, path, start + 2) {
                    Some((sq, n)) => Some((sq, if path.len() - start == 3 { 2 } else { n })),
                    None => None,
                }
            },
            _ => None,
        }
    }
}

/// The instruction that `path` points at, if any.
pub open spec fn instr_at(body: Seq<InstrView>, path: Seq<usize>) -> Option<InstrView> {
    match locate(body, path, 0) {
        Some((sq, _)) => if path.last() < sq.len() {
            Some(sq[path.last() as int])
        } else {
            None
        },
        None => None,
    }
}

/// `path` with its innermost level removed, leaving it on the container;
/// `None` at the outermost level.
pub open spec fn pop_level(body: Seq<InstrView>, path: Seq<usize>) -> Option<Seq<usize>> {
    match locate(body, path, 0) {
        Some((_, n)) => if 1 <= n < path.len() {
            Some(path.subrange(0, path.len() - n))
        } else {
            None
        },
        None => None,
    }
}

/// Leaves every container whose end the path has reached, moving on past it.
pub open spec fn settle(body: Seq<InstrView>, path: Seq<usize>) -> Seq<usize>
    decreases path.len(), 0nat,
{
    if path.len() <= 1 {
        path
    } else {
        match locate(body, path, 0) {
            Some((sq, n)) => if path.last() < sq.len() {
                path
            } else if 1 <= n < path.len() {
                advance(body, path.subrange(0, path.len() - n))
            } else {
                path
            },
            None => path,
        }
    }
}

/// Moves the path to the next instruction.
pub open spec fn advance(body: Seq<InstrView>, path: Seq<usize>) -> Seq<usize>
    decreases path.len(), 1nat,
{
    if path.len() == 0 || path.last() == usize::MAX {
        path
    } else {
        settle(body, path.update(path.len() - 1, (path.last() + 1) as usize))
    }
}

/// The path after leaving `n` levels, if there are more than `n`.
pub open spec fn pop_levels(body: Seq<InstrView>, path: Seq<usize>, n: nat) -> Option<Seq<usize>>
    decreases n,
{
    if n == 0 {
        Some(path)
    } else {
        match pop_level(body, path) {
            Some(p) => pop_levels(body, p, (n - 1) as nat),
            None => None,
        }
    }
}

/// Enters the body of the container that `path` points at (for an if-else,
/// its branch `branch`).
pub open spec fn enter(body: Seq<InstrView>, path: Seq<usize>, branch: Option<usize>) -> Seq<usize> {
    match branch {
        Some(b) => settle(body, path.push(b).push(0)),
        None => settle(body, path.push(0)),
    }
}

pub(crate) fn locate_exec<'b>(body: &'b Vec<Instruction>, path: &Vec<usize>, start: usize) -> (r: Option<(&'b Vec<Instruction>, usize)>)
    ensures
        match locate(instrs_view(body@), path@, start as int) {
            Some((sq, n)) => r is Some && instrs_view(r->Some_0.0@) == sq && r->Some_0.1 == n,
            None => r is None,
        },
    decreases path@.len() - start,
{
    let len = path.len();
    if start >= len {
        return None;
    }
    if len - start == 1 {
        return Some((body, 1));
    }
    let i = path[start];
    if i >= body.len() {
        proof {
            lemma_instrs_view_index(body@);
        }
        return None;
    }
    proof {
        lemma_instrs_view_index(body@);
    }
    match &body[i] {
        Instruction::Block { inner, .. } => locate_exec(inner, path, start + 1),
        Instruction::Loop { inner, .. } => locate_exec(inner, path, start + 1),
        Instruction::If { inner, .. } => locate_exec(inner, path, start + 1),
        Instruction::IfElse { if_inner, else_inner, .. } => {
            if len - start < 3 || path[start + 1] > 1 {
                return None;
            }
            let sub = if path[start + 1] == 0 {
                if_inner
            } else {
                else_inner
            };
            match locate_exec(sub, path, start + 2) {
                Some((sq, n)) => Some(
                    (
                        sq,
                        if len - start == 3 {
                            2
                        } else {
                            n
                        },
                    ),
                ),
                None => None,
            }
        },
        _ => None,
    }
}

pub(crate) fn instr_at_exec<'b>(body: &'b Vec<Instruction>, path: &Vec<usize>) -> (r: Option<&'b Instruction>)
    ensures
        match instr_at(instrs_view(body@), path@) {
            Some(v) => r is Some && instr_view(*r->Some_0) == v,
            None => r is None,
        },
{
    match locate_exec(body, path, 0) {
        Some((sq, _)) => {
            let last = path[path.len() - 1];
            proof {
                lemma_instrs_view_index(sq@);
            }
            if last < sq.len() {
                Some(&sq[last])
            } else {
                None
            }
        },
        None => None,
    }
}

pub(crate) fn settle_exec(body: &Vec<Instruction>, path: &mut Vec<usize>)
    ensures
        final(path)@ == settle(instrs_view(body@), old(path)@),
    decreases old(path)@.len(), 0nat,
{
    if path.len() <= 1 {
        return;
    }
    match locate_exec(body, path, 0) {
        Some((sq, n)) => {
            let last = path[path.len() - 1];
            proof {
                lemma_instrs_view_index(sq@);
            }
            if last < sq.len() {
                return;
            }
            if 1 <= n && n < path.len() {
                let keep = path.len() - n;
                path.truncate(keep);
                advance_exec(body, path);
            }
        },
        None => {},
    }
}

pub(crate) fn advance_exec(body: &Vec<Instruction>, path: &mut Vec<usize>)
    ensures
        final(path)@ == advance(instrs_view(body@), old(path)@),
    decreases old(path)@.len(), 1nat,
{
    let len = path.len();
    if len == 0 {
        return;
    }
    let v = path[len - 1];
    if v == usize::MAX {
        return;
    }
    path[len - 1] = v + 1;
    settle_exec(body, path);
}

pub(crate) fn pop_levels_exec(body: &Vec<Instruction>, path: &mut Vec<usize>, n: usize) -> (r: bool)
    ensures
        match pop_levels(instrs_view(body@), old(path)@, n as nat) {
            Some(p) => r && final(path)@ == p,
            None => !r,
        },
{
    let mut k: usize = n;
    while k > 0
        invariant
            pop_levels(instrs_view(body@), old(path)@, n as nat) == pop_levels(instrs_view(body@), path@, k as nat),
        decreases k,
    {
        match locate_exec(body, path, 0) {
            Some((_, m)) => {
                if 1 <= m && m < path.len() {
                    let keep = path.len() - m;
                    path.truncate(keep);
                } else {
                    return false;
                }
            },
            None => return false,
        }
        k = k - 1;
    }
    true
}

} // verus!
