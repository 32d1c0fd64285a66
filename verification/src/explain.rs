use vstd::prelude::*;

verus! {

/// A per-node cost figure from the upstream plan: either the bit pattern of
/// a finite, non-negative 32-bit float (such patterns order as the floats
/// they stand for), or a non-numeric marker string, which counts as absent.
pub enum FloatingPointHack {
    Float(u32),
    NaN(String),
}

pub struct Estimate {
    pub output_row_count: FloatingPointHack,
    pub output_size_in_bytes: FloatingPointHack,
    pub cpu_cost: FloatingPointHack,
    pub memory_cost: FloatingPointHack,
    pub network_cost: FloatingPointHack,
}

pub struct Description {
    pub column_names: Option<String>,
    pub count: Option<String>,
    pub with_ties: Option<String>,
    pub input_pre_sorted_by: Option<String>,
}

pub struct ColumnOutput {
    pub symbol: String,
    pub kind: String,
}

/// A node of the upstream logical plan tree.
pub struct ExplainNode {
    pub id: String,
    pub name: String,
    pub descriptor: Description,
    pub outputs: Vec<ColumnOutput>,
    pub details: Vec<String>,
    pub estimates: Option<Vec<Estimate>>,
    pub children: Option<Vec<ExplainNode>>,
}

/// The CPU cost an estimate contributes: a marker contributes nothing.
pub open spec fn cost_of(e: Estimate) -> u32 {
    match e.cpu_cost {
        FloatingPointHack::Float(b) => b,
        FloatingPointHack::NaN(_) => 0,
    }
}

pub open spec fn ests_max(es: Seq<Estimate>) -> u32
    decreases es.len(),
{
    if es.len() == 0 {
        0
    } else {
        let m = ests_max(es.drop_last());
        if cost_of(es.last()) > m {
            cost_of(es.last())
        } else {
            m
        }
    }
}

/// The maximum finite CPU cost observed anywhere in the node's subtree; 0
/// when no estimate carries one.
pub open spec fn node_max(n: ExplainNode) -> u32
    decreases n,
    via node_max_decreases
{
    let own = match n.estimates {
        Some(es) => ests_max(es@),
        None => 0,
    };
    match n.children {
        None => own,
        Some(cs) => {
            let km = kids_max(cs@, cs@.len() as int);
            if km > own {
                km
            } else {
                own
            }
        },
    }
}

pub open spec fn kids_max(cs: Seq<ExplainNode>, i: int) -> u32
    decreases cs, i,
    via kids_max_decreases
{
    if i <= 0 || i > cs.len() {
        0
    } else {
        let m = kids_max(cs, i - 1);
        let c = node_max(cs[i - 1]);
        if c > m {
            c
        } else {
            m
        }
    }
}

#[via_fn]
proof fn node_max_decreases(n: ExplainNode) {
    broadcast use vstd::std_specs::vec::axiom_vec_decreases_to_view;

    match n.children {
        Some(cs) => {
            assert(decreases_to!(n => cs));
            assert(decreases_to!(cs => cs@));
        },
        None => {},
    }
}

#[via_fn]
proof fn kids_max_decreases(cs: Seq<ExplainNode>, i: int) {
    broadcast use vstd::seq::axiom_seq_index_decreases;

    if 0 < i <= cs.len() {
        assert(decreases_to!(cs => cs[i - 1]));
    }
}

/// Whether every CPU cost in the node's subtree is a non-numeric marker.
pub open spec fn only_markers(n: ExplainNode) -> bool
    decreases n,
    via only_markers_decreases
{
    let own = match n.estimates {
        Some(es) => forall|i: int| 0 <= i < es@.len() ==> es@[i].cpu_cost is NaN,
        None => true,
    };
    own && match n.children {
        None => true,
        Some(cs) => kids_only_markers(cs@, cs@.len() as int),
    }
}

pub open spec fn kids_only_markers(cs: Seq<ExplainNode>, i: int) -> bool
    decreases cs, i,
    via kids_only_markers_decreases
{
    if i <= 0 || i > cs.len() {
        true
    } else {
        kids_only_markers(cs, i - 1) && only_markers(cs[i - 1])
    }
}

#[via_fn]
proof fn only_markers_decreases(n: ExplainNode) {
    broadcast use vstd::std_specs::vec::axiom_vec_decreases_to_view;

    match n.children {
        Some(cs) => {
            assert(decreases_to!(n => cs));
            assert(decreases_to!(cs => cs@));
        },
        None => {},
    }
}

#[via_fn]
proof fn kids_only_markers_decreases(cs: Seq<ExplainNode>, i: int) {
    broadcast use vstd::seq::axiom_seq_index_decreases;

    if 0 < i <= cs.len() {
        assert(decreases_to!(cs => cs[i - 1]));
    }
}

/// A plan tree that carries only marker costs observes a maximum of 0, so it
/// violates no threshold.
pub proof fn lemma_only_markers_zero(n: ExplainNode)
    requires
        only_markers(n),
    ensures
        node_max(n) == 0,
    decreases n,
{
    broadcast use vstd::std_specs::vec::axiom_vec_decreases_to_view;

    match n.estimates {
        Some(es) => {
            lemma_ests_max_markers(es@);
        },
        None => {},
    }
    match n.children {
        Some(cs) => {
            assert(decreases_to!(n => cs));
            assert(decreases_to!(cs => cs@));
            lemma_kids_only_markers_zero(cs@, cs@.len() as int);
        },
        None => {},
    }
}

proof fn lemma_kids_only_markers_zero(cs: Seq<ExplainNode>, i: int)
    requires
        kids_only_markers(cs, i),
    ensures
        kids_max(cs, i) == 0,
    decreases cs, i,
{
    broadcast use vstd::seq::axiom_seq_index_decreases;

    if 0 < i <= cs.len() {
        assert(decreases_to!(cs => cs[i - 1]));
        lemma_kids_only_markers_zero(cs, i - 1);
        lemma_only_markers_zero(cs[i - 1]);
    }
}

/// A subtree that carries only marker costs observes a maximum of 0.
pub proof fn lemma_ests_max_markers(es: Seq<Estimate>)
    requires
        forall|i: int| 0 <= i < es.len() ==> es[i].cpu_cost is NaN,
    ensures
        ests_max(es) == 0,
    decreases es.len(),
{
    if es.len() > 0 {
        lemma_ests_max_markers(es.drop_last());
        assert(es.last() == es[es.len() - 1]);
    }
}

pub fn max_cpu_cost_of(n: &ExplainNode) -> (r: u32)
    ensures
        r == node_max(*n),
    decreases *n,
{
    let mut m: u32 = 0;
    match &n.estimates {
        None => {},
        Some(es) => {
            let mut i: usize = 0;
            proof {
                assert(es@.take(0) =~= Seq::<Estimate>::empty());
            }
            while i < es.len()
                invariant
                    0 <= i <= es.len(),
                    m == ests_max(es@.take(i as int)),
                decreases es.len() - i,
            {
                let ghost pre = es@.take(i as int);
                match &es[i].cpu_cost {
                    FloatingPointHack::Float(b) => {
                        if *b > m {
                            m = *b;
                        }
                    },
                    FloatingPointHack::NaN(_) => {},
                }
                proof {
                    assert(es@.take(i + 1).drop_last() =~= pre);
                    assert(es@.take(i + 1).last() == es@[i as int]);
                }
                i = i + 1;
            }
            proof {
                assert(es@.take(es.len() as int) =~= es@);
            }
        },
    }
    match &n.children {
        None => {},
        Some(cs) => {
            let mut i: usize = 0;
            let mut km: u32 = 0;
            while i < cs.len()
                invariant
                    0 <= i <= cs.len(),
                    km == kids_max(cs@, i as int),
                    n.children is Some,
                    *cs == n.children->Some_0,
                decreases cs.len() - i,
            {
                proof {
                    broadcast use vstd::std_specs::vec::axiom_vec_decreases_to_view;
                    broadcast use vstd::seq::axiom_seq_index_decreases;

                    assert(decreases_to!(*n => n.children->Some_0));
                    assert(decreases_to!(*cs => (*cs)@));
                    assert(decreases_to!((*cs)@ => (*cs)@[i as int]));
                }
                let c = max_cpu_cost_of(&cs[i]);
                if c > km {
                    km = c;
                }
                i = i + 1;
            }
            if km > m {
                m = km;
            }
        },
    }
    m
}

} // verus!
