use crate::definitions::{DefinitionMap, with_attr};
use crate::library::Attribute;
use crate::types::{Instruction, InstructionModel, models, offset_of};
use std::collections::HashSet;
use vstd::prelude::*;

verus! {

broadcast use vstd::std_specs::hash::group_hash_axioms;

/// The destination of an instruction whose opcode is among the branch
/// opcodes `ops`, read from its first operand, if that is an offset.
pub open spec fn branch_target(ops: Seq<u16>, i: InstructionModel) -> Option<i32> {
    if ops.contains(i.opcode) && i.params.len() > 0 {
        offset_of(i.params[0])
    } else {
        None
    }
}

/// Whether a destination is global (not negative) or local (negative).
pub open spec fn has_sign(x: i32, global: bool) -> bool {
    if global {
        x >= 0
    } else {
        x < 0
    }
}

/// The destinations of one sign that the branches of `s` name.
pub open spec fn targets(ops: Seq<u16>, s: Seq<InstructionModel>, global: bool) -> Set<i32> {
    Set::new(
        |x: i32|
            has_sign(x, global) && exists|k: int|
                0 <= k < s.len() && #[trigger] branch_target(ops, s[k]) == Some(x),
    )
}

/// Absolute destinations in the MAIN script's address space.
pub open spec fn global_targets(ops: Seq<u16>, s: Seq<InstructionModel>) -> Set<i32> {
    targets(ops, s, true)
}

/// Destinations relative to the chunk the branches stand in.
pub open spec fn local_targets(ops: Seq<u16>, s: Seq<InstructionModel>) -> Set<i32> {
    targets(ops, s, false)
}

/// Collects branch destinations from decoded instructions.
pub struct Scanner {
    branch_ops: Vec<u16>,
}

impl Scanner {
    /// The opcodes whose first operand is a branch destination.
    pub closed spec fn spec_branch_ops(&self) -> Seq<u16> {
        self.branch_ops@
    }

    /// A scanner for the commands that carry the branch attribute.
    pub fn new(definitions: &DefinitionMap) -> (r: Self)
        requires
            definitions.wf(),
        ensures
            r.spec_branch_ops() == with_attr(definitions@, definitions.keys(), Attribute::Branch),
    {
        Scanner { branch_ops: definitions.find_all_by_attr(Attribute::Branch) }
    }

    fn is_branch(&self, op: u16) -> (r: bool)
        ensures
            r == self.branch_ops@.contains(op),
    {
        let mut i: usize = 0;
        while i < self.branch_ops.len()
            invariant
                i <= self.branch_ops@.len(),
                forall|j: int| 0 <= j < i ==> self.branch_ops@[j] != op,
            decreases self.branch_ops@.len() - i,
        {
            if self.branch_ops[i] == op {
                return true;
            }
            i = i + 1;
        }
        false
    }

    fn target_of(&self, inst: &Instruction) -> (r: Option<i32>)
        ensures
            r == branch_target(self.branch_ops@, inst@),
    {
        if self.is_branch(inst.opcode) && inst.params.len() > 0 {
            inst.params[0].to_offset()
        } else {
            None
        }
    }

    /// Adds to `res` the destinations of one sign named in `instructions`.
    pub fn collect_into(&self, instructions: &Vec<Instruction>, global: bool, res: &mut HashSet<i32>)
        ensures
            final(res)@ == old(res)@.union(
                targets(self.spec_branch_ops(), models(instructions@), global),
            ),
    {
        let ghost s = models(instructions@);
        let ghost start = res@;
        let mut k: usize = 0;
        while k < instructions.len()
            invariant
                k <= instructions@.len(),
                s == models(instructions@),
                res@ == start.union(targets(self.branch_ops@, s.subrange(0, k as int), global)),
            decreases instructions@.len() - k,
        {
            let t = self.target_of(&instructions[k]);
            let ghost before = res@;
            match t {
                Some(x) => {
                    if (global && x >= 0) || (!global && x < 0) {
                        res.insert(x);
                    }
                },
                None => {},
            }
            proof {
                let pre = s.subrange(0, k as int);
                let post = s.subrange(0, k + 1);
                assert(post[k as int] == instructions@[k as int]@);
                assert forall|x: i32|
                    #[trigger] targets(self.branch_ops@, post, global).contains(x) == (targets(
                        self.branch_ops@,
                        pre,
                        global,
                    ).contains(x) || (t == Some(x) && has_sign(x, global))) by {
                    if targets(self.branch_ops@, post, global).contains(x) {
                        let j = choose|j: int|
                            0 <= j < post.len() && #[trigger] branch_target(self.branch_ops@, post[j])
                                == Some(x);
                        if j < k {
                            assert(pre[j] == post[j]);
                        }
                    }
                    if targets(self.branch_ops@, pre, global).contains(x) {
                        let j = choose|j: int|
                            0 <= j < pre.len() && #[trigger] branch_target(self.branch_ops@, pre[j])
                                == Some(x);
                        assert(pre[j] == post[j]);
                    }
                }
                assert(res@ =~= start.union(targets(self.branch_ops@, post, global)));
            }
            k = k + 1;
        }
        proof {
            assert(s.subrange(0, instructions@.len() as int) =~= s);
        }
    }

    /// The absolute branch destinations named in `instructions`.
    pub fn collect_global_addresses(&self, instructions: &Vec<Instruction>) -> (r: HashSet<i32>)
        ensures
            r@ == global_targets(self.spec_branch_ops(), models(instructions@)),
    {
        let mut res: HashSet<i32> = HashSet::new();
        self.collect_into(instructions, true, &mut res);
        proof {
            assert(res@ =~= global_targets(self.spec_branch_ops(), models(instructions@)));
        }
        res
    }

    /// The chunk-relative branch destinations named in `instructions`.
    pub fn collect_relative_addresses(&self, instructions: &Vec<Instruction>) -> (r: HashSet<i32>)
        ensures
            r@ == local_targets(self.spec_branch_ops(), models(instructions@)),
    {
        let mut res: HashSet<i32> = HashSet::new();
        self.collect_into(instructions, false, &mut res);
        proof {
            assert(res@ =~= local_targets(self.spec_branch_ops(), models(instructions@)));
        }
        res
    }
}

/// Scanning is idempotent: collecting the destinations of a stream into a
/// set a second time leaves the set as the first collection left it, and
/// each collection is a function of the scanner and the stream alone.
pub proof fn lemma_scan_idempotent(start: Set<i32>, ops: Seq<u16>, s: Seq<InstructionModel>, global: bool)
    ensures
        start.union(targets(ops, s, global)).union(targets(ops, s, global)) == start.union(
            targets(ops, s, global),
        ),
{
    assert(start.union(targets(ops, s, global)).union(targets(ops, s, global)) =~= start.union(
        targets(ops, s, global),
    ));
}

/// No destination is both global and local: global destinations are never
/// negative, local ones always are, whichever streams they come from.
pub proof fn lemma_targets_disjoint(
    ops: Seq<u16>,
    s: Seq<InstructionModel>,
    t: Seq<InstructionModel>,
)
    ensures
        global_targets(ops, s).disjoint(local_targets(ops, t)),
        forall|x: i32| #[trigger] global_targets(ops, s).contains(x) ==> x >= 0,
        forall|x: i32| #[trigger] local_targets(ops, t).contains(x) ==> x < 0,
{
}

} // verus!
