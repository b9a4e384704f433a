//! Assembling measurement nodes into 360° rotations.
//!
//! A rotation is every node from one start-flag node up to (not including)
//! the next. Nodes before the first start flag belong to a rotation whose
//! beginning was missed and are dropped; a rotation is handed out when the
//! start flag of the following one arrives.

use vstd::prelude::*;

use crate::protocol::scan_node::ScanNode;

verus! {

/// One node through the assembler: the open rotation and whether a start
/// flag has been seen, before and after, and the rotation completed, if any.
pub open spec fn assembly_step(open: Seq<ScanNode>, primed: bool, node: ScanNode) -> (
    Seq<ScanNode>,
    bool,
    Option<Seq<ScanNode>>,
) {
    if node.start_flag {
        (seq![node], true, if primed && open.len() > 0 {
            Some(open)
        } else {
            None
        })
    } else if primed {
        (open.push(node), true, None)
    } else {
        (open, false, None)
    }
}

/// Feeding `nodes` in order to an assembler starting empty: the open
/// rotation, whether a start flag was seen, and the completed rotations.
pub open spec fn assemble(nodes: Seq<ScanNode>) -> (Seq<ScanNode>, bool, Seq<Seq<ScanNode>>)
    decreases nodes.len(),
{
    if nodes.len() == 0 {
        (Seq::empty(), false, Seq::empty())
    } else {
        let (open, primed, done) = assemble(nodes.drop_last());
        let (open2, primed2, out) = assembly_step(open, primed, nodes.last());
        (open2, primed2, match out {
            Some(r) => done.push(r),
            None => done,
        })
    }
}

/// The concatenation of a sequence of rotations.
pub open spec fn concat_all(rs: Seq<Seq<ScanNode>>) -> Seq<ScanNode>
    decreases rs.len(),
{
    if rs.len() == 0 {
        Seq::empty()
    } else {
        concat_all(rs.drop_last()) + rs.last()
    }
}

/// The index of the first start-flag node, or the length when there is none.
pub open spec fn first_start(nodes: Seq<ScanNode>) -> int
    decreases nodes.len(),
{
    if nodes.len() == 0 {
        0
    } else if first_start(nodes.drop_last()) < nodes.len() - 1 {
        first_start(nodes.drop_last())
    } else if nodes.last().start_flag {
        nodes.len() - 1
    } else {
        nodes.len() as int
    }
}

/// A rotation, complete or still open: it begins with a start-flag node and
/// holds no other.
pub open spec fn well_formed_rotation(r: Seq<ScanNode>) -> bool {
    &&& r.len() > 0
    &&& r[0].start_flag
    &&& forall|j: int| 1 <= j < r.len() ==> !(#[trigger] r[j]).start_flag
}

/// Rotation state carried between reads of a scan stream.
///
/// Besides what it holds, an assembler remembers (as ghost state) every node
/// it was given and every rotation it handed out; its state is always what
/// [`assemble`] makes of the nodes given so far.
pub struct ScanAssembler {
    current: Vec<ScanNode>,
    primed: bool,
    started: bool,
    done: bool,
    seen: Ghost<Seq<ScanNode>>,
    emitted: Ghost<Seq<Seq<ScanNode>>>,
}

/// The assembler's state is what [`assemble`] makes of the nodes it was
/// given: its open rotation, whether it is primed, and the rotations it
/// handed out.
pub open spec fn follows_history(a: ScanAssembler) -> bool {
    assemble(a.nodes_seen()) == (a.open_rotation(), a.is_primed(), a.rotations_out())
}

impl ScanAssembler {
    #[verifier::type_invariant]
    spec fn state_matches_history(&self) -> bool {
        assemble(self.seen@) == (self.current@, self.primed, self.emitted@)
    }

    /// The rotation being assembled.
    pub closed spec fn open_rotation(&self) -> Seq<ScanNode> {
        self.current@
    }

    /// Whether a start flag has been seen, so that nodes are being kept.
    pub closed spec fn is_primed(&self) -> bool {
        self.primed
    }

    /// Whether the first node has arrived (the motor spin-up is over).
    pub closed spec fn has_started(&self) -> bool {
        self.started
    }

    /// Whether the stream has ended or failed.
    pub closed spec fn is_done(&self) -> bool {
        self.done
    }

    /// Every node given to [`ScanAssembler::push`], in order.
    pub closed spec fn nodes_seen(&self) -> Seq<ScanNode> {
        self.seen@
    }

    /// Every rotation [`ScanAssembler::push`] handed out, in order.
    pub closed spec fn rotations_out(&self) -> Seq<Seq<ScanNode>> {
        self.emitted@
    }

    /// An assembler that has seen nothing.
    pub fn new() -> (a: Self)
        ensures
            a.open_rotation() == Seq::<ScanNode>::empty(),
            !a.is_primed(),
            !a.has_started(),
            !a.is_done(),
            a.nodes_seen() == Seq::<ScanNode>::empty(),
            a.rotations_out() == Seq::<Seq<ScanNode>>::empty(),
            follows_history(a),
    {
        ScanAssembler {
            current: Vec::new(),
            primed: false,
            started: false,
            done: false,
            seen: Ghost(Seq::empty()),
            emitted: Ghost(Seq::empty()),
        }
    }

    /// Whether the first node has arrived.
    pub fn started(&self) -> (s: bool)
        ensures
            s == self.has_started(),
            follows_history(*self),
    {
        proof {
            use_type_invariant(self);
        }
        self.started
    }

    /// Whether the stream has ended or failed.
    pub fn done(&self) -> (d: bool)
        ensures
            d == self.is_done(),
            follows_history(*self),
    {
        proof {
            use_type_invariant(self);
        }
        self.done
    }

    /// Records that the first node arrived.
    pub fn mark_started(&mut self)
        ensures
            final(self).has_started(),
            final(self).is_done() == old(self).is_done(),
            final(self).open_rotation() == old(self).open_rotation(),
            final(self).is_primed() == old(self).is_primed(),
            final(self).nodes_seen() == old(self).nodes_seen(),
            final(self).rotations_out() == old(self).rotations_out(),
            follows_history(*final(self)),
    {
        proof {
            use_type_invariant(&*self);
        }
        self.started = true;
    }

    /// Records that the stream is over.
    pub fn finish(&mut self)
        ensures
            final(self).is_done(),
            final(self).has_started() == old(self).has_started(),
            final(self).open_rotation() == old(self).open_rotation(),
            final(self).is_primed() == old(self).is_primed(),
            final(self).nodes_seen() == old(self).nodes_seen(),
            final(self).rotations_out() == old(self).rotations_out(),
            follows_history(*final(self)),
    {
        proof {
            use_type_invariant(&*self);
        }
        self.done = true;
    }

    /// Adds one node and returns the rotation it completes, if any.
    pub fn push(&mut self, node: ScanNode) -> (out: Option<Vec<ScanNode>>)
        ensures
            ({
                let (open, primed, done) = assembly_step(
                    old(self).open_rotation(),
                    old(self).is_primed(),
                    node,
                );
                &&& final(self).open_rotation() == open
                &&& final(self).is_primed() == primed
                &&& out is Some <==> done is Some
                &&& out matches Some(r) ==> done == Some(r@)
            }),
            final(self).nodes_seen() == old(self).nodes_seen().push(node),
            final(self).rotations_out() == match out {
                Some(r) => old(self).rotations_out().push(r@),
                None => old(self).rotations_out(),
            },
            final(self).has_started() == old(self).has_started(),
            final(self).is_done() == old(self).is_done(),
            follows_history(*final(self)),
    {
        let mut taken = ScanAssembler::new();
        core::mem::swap(self, &mut taken);
        proof {
            use_type_invariant(&taken);
        }
        let ScanAssembler { mut current, mut primed, started, done, seen, emitted } = taken;
        let ghost seen2 = seen@.push(node);
        proof {
            assert(seen2.drop_last() =~= seen@);
        }
        let finished = if node.start_flag {
            let finished = if primed && current.len() > 0 {
                let mut completed = Vec::new();
                core::mem::swap(&mut completed, &mut current);
                Some(completed)
            } else {
                None
            };
            primed = true;
            current.clear();
            current.push(node);
            proof {
                assert(current@ =~= seq![node]);
            }
            finished
        } else {
            if primed {
                current.push(node);
            }
            None
        };
        let ghost emitted2 = match &finished {
            Some(r) => emitted@.push(r@),
            None => emitted@,
        };
        *self = ScanAssembler {
            current,
            primed,
            started,
            done,
            seen: Ghost(seen2),
            emitted: Ghost(emitted2),
        };
        finished
    }
}

/// Over an assembler's whole life, the rotations it handed out followed by
/// its open rotation are exactly the nodes it was given from the first start
/// flag on, in order, and each of them begins with a start-flag node and
/// holds no other.
pub proof fn lemma_assembler_keeps_every_node(a: ScanAssembler)
    requires
        follows_history(a),
    ensures
        concat_all(a.rotations_out()) + a.open_rotation() == a.nodes_seen().skip(
            first_start(a.nodes_seen()),
        ),
        a.is_primed() ==> well_formed_rotation(a.open_rotation()),
        forall|i: int|
            0 <= i < a.rotations_out().len() ==> well_formed_rotation(
                #[trigger] a.rotations_out()[i],
            ),
{
    lemma_assembly_keeps_every_node(a.nodes_seen());
    lemma_assembly_open_well_formed(a.nodes_seen());
}

/// Assembling keeps every node from the first start flag on, in order:
/// the completed rotations followed by the open one are exactly the nodes
/// from the first start flag to the end. Nodes before it are dropped, and
/// the assembler is primed exactly when a start flag was seen.
pub proof fn lemma_assembly_keeps_every_node(nodes: Seq<ScanNode>)
    ensures
        ({
            let (open, primed, done) = assemble(nodes);
            &&& 0 <= first_start(nodes) <= nodes.len()
            &&& concat_all(done) + open == nodes.skip(first_start(nodes))
            &&& primed <==> first_start(nodes) < nodes.len()
            &&& !primed ==> open.len() == 0 && done.len() == 0
        }),
    decreases nodes.len(),
{
    if nodes.len() > 0 {
        let prev = nodes.drop_last();
        lemma_assembly_keeps_every_node(prev);
        let (open, primed, done) = assemble(prev);
        let x = nodes.last();
        let f = first_start(prev);
        if primed {
            lemma_assembly_open_well_formed(prev);
            assert(nodes.skip(f) =~= prev.skip(f).push(x));
            if x.start_flag {
                assert(done.push(open).drop_last() =~= done);
                assert(concat_all(done.push(open)) =~= concat_all(done) + open);
                assert(concat_all(done.push(open)) + seq![x] =~= concat_all(done) + open + seq![
                    x,
                ]);
            } else {
                assert(concat_all(done) + open.push(x) =~= concat_all(done) + open + seq![x]);
            }
        } else {
            if x.start_flag {
                assert(nodes.skip(nodes.len() - 1) =~= seq![x]);
                assert(concat_all(done) =~= Seq::<ScanNode>::empty());
            } else {
                assert(nodes.skip(nodes.len() as int) =~= Seq::<ScanNode>::empty());
            }
        }
    }
}

/// Every completed rotation, and the open one once primed, begins with a
/// start-flag node and holds no other.
pub proof fn lemma_assembly_open_well_formed(nodes: Seq<ScanNode>)
    ensures
        ({
            let (open, primed, done) = assemble(nodes);
            &&& primed ==> well_formed_rotation(open)
            &&& forall|i: int| 0 <= i < done.len() ==> well_formed_rotation(#[trigger] done[i])
        }),
    decreases nodes.len(),
{
    if nodes.len() > 0 {
        let prev = nodes.drop_last();
        lemma_assembly_open_well_formed(prev);
        let (open, primed, done) = assemble(prev);
        let x = nodes.last();
        let (open2, primed2, out) = assembly_step(open, primed, x);
        let done2 = match out {
            Some(r) => done.push(r),
            None => done,
        };
        assert forall|i: int| 0 <= i < done2.len() implies well_formed_rotation(
            #[trigger] done2[i],
        ) by {
            if i < done.len() {
                assert(done2[i] == done[i]);
            }
        }
        if primed2 && !x.start_flag {
            assert forall|j: int| 1 <= j < open2.len() implies !(#[trigger] open2[j]).start_flag by {
                if j < open.len() {
                    assert(open2[j] == open[j]);
                }
            }
        }
    }
}

} // verus!
