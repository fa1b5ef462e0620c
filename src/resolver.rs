use vstd::prelude::*;

use crate::instruction::Instruction;

verus! {

/// The program has a loop bracket that is never closed, or a close with no
/// open loop.
#[derive(Clone, Copy, Debug, PartialEq, Eq, Structural)]
pub enum StructureError {
    Imbalanced,
}

/// How an instruction changes the bracket nesting depth.
pub open spec fn delta(i: Instruction) -> int {
    match i {
        Instruction::Forward => 1,
        Instruction::Backward => -1,
        _ => 0,
    }
}

/// The nesting depth after the first `k` instructions of `s`.
pub open spec fn depth(s: Seq<Instruction>, k: int) -> int
    decreases k,
{
    if k <= 0 {
        0
    } else {
        depth(s, k - 1) + delta(s[k - 1])
    }
}

/// Brackets nest properly: no prefix closes more loops than it opens, and
/// the whole program closes every loop it opens.
pub open spec fn balanced(s: Seq<Instruction>) -> bool {
    &&& forall|k: int| 0 <= k <= s.len() ==> depth(s, k) >= 0
    &&& depth(s, s.len() as int) == 0
}

/// The `[` at `a` is closed by the `]` at `b`: `b` is the first position
/// after `a` where the depth falls back to its level before `a`.
pub open spec fn matches(s: Seq<Instruction>, a: int, b: int) -> bool {
    &&& 0 <= a < b < s.len()
    &&& s[a] == Instruction::Forward
    &&& s[b] == Instruction::Backward
    &&& depth(s, b + 1) == depth(s, a)
    &&& forall|k: int| a < k <= b ==> depth(s, k) > depth(s, a)
}

/// `t` links every bracket of `s` to its partner, and nothing else.
pub open spec fn is_jump_table(s: Seq<Instruction>, t: Seq<Option<usize>>) -> bool {
    &&& t.len() == s.len()
    &&& forall|i: int|
        0 <= i < s.len() ==> match s[i] {
            Instruction::Forward => #[trigger] t[i] is Some && matches(s, i, t[i]->0 as int),
            Instruction::Backward => t[i] is Some && matches(s, t[i]->0 as int, i),
            _ => t[i] is None,
        }
}

/// A `[` is closed by at most one `]`.
pub proof fn lemma_close_unique(s: Seq<Instruction>, a: int, b1: int, b2: int)
    requires
        matches(s, a, b1),
        matches(s, a, b2),
    ensures
        b1 == b2,
{
    if b1 < b2 {
        assert(depth(s, b1 + 1) > depth(s, a));
    } else if b2 < b1 {
        assert(depth(s, b2 + 1) > depth(s, a));
    }
}

/// A `]` closes at most one `[`.
pub proof fn lemma_open_unique(s: Seq<Instruction>, a1: int, a2: int, b: int)
    requires
        matches(s, a1, b),
        matches(s, a2, b),
    ensures
        a1 == a2,
{
    if a1 < a2 {
        assert(depth(s, a2) > depth(s, a1));
    } else if a2 < a1 {
        assert(depth(s, a1) > depth(s, a2));
    }
}

/// A jump table is symmetric: where the bracket at `a` jumps to `b`, the
/// bracket at `b` jumps back to `a`.
pub proof fn lemma_jump_table_symmetric(s: Seq<Instruction>, t: Seq<Option<usize>>)
    requires
        is_jump_table(s, t),
    ensures
        forall|a: int|
            0 <= a < s.len() && #[trigger] t[a] is Some ==> {
                &&& t[a]->0 < s.len()
                &&& t[t[a]->0 as int] == Some(a as usize)
            },
{
    assert forall|a: int| 0 <= a < s.len() && #[trigger] t[a] is Some implies {
        &&& t[a]->0 < s.len()
        &&& t[t[a]->0 as int] == Some(a as usize)
    } by {
        let b = t[a]->0 as int;
        if s[a] == Instruction::Forward {
            assert(matches(s, a, b));
            assert(s[b] == Instruction::Backward);
            assert(t[b] is Some && matches(s, t[b]->0 as int, b));
            lemma_open_unique(s, a, t[b]->0 as int, b);
        } else {
            assert(s[a] == Instruction::Backward);
            assert(matches(s, b, a));
            assert(t[b] is Some && matches(s, b, t[b]->0 as int));
            lemma_close_unique(s, b, a, t[b]->0 as int);
        }
    }
}

/// For each instruction index, the index of its partner bracket, if it is a
/// bracket.
pub struct JumpTable {
    partners: Vec<Option<usize>>,
}

impl View for JumpTable {
    type V = Seq<Option<usize>>;

    closed spec fn view(&self) -> Seq<Option<usize>> {
        self.partners@
    }
}

impl JumpTable {
    /// The partner of the bracket at `i`; `None` for any other index.
    pub fn partner(&self, i: usize) -> (r: Option<usize>)
        ensures
            r == (if i < self@.len() {
                self@[i as int]
            } else {
                None
            }),
    {
        if i < self.partners.len() {
            self.partners[i]
        } else {
            None
        }
    }

    /// The number of instruction positions the table covers.
    pub fn len(&self) -> (r: usize)
        ensures
            r == self@.len(),
    {
        self.partners.len()
    }
}

/// The `[` at `p` is still unclosed after the first `i` instructions.
pub open spec fn open_until(s: Seq<Instruction>, p: int, i: int) -> bool {
    forall|q: int| p < q <= i ==> depth(s, q) > depth(s, p)
}

/// Pairs every loop bracket with its partner, failing when the brackets do
/// not nest properly.
pub fn resolve(instructions: &Vec<Instruction>) -> (r: Result<JumpTable, StructureError>)
    ensures
        r is Ok <==> balanced(instructions@),
        r matches Ok(t) ==> is_jump_table(instructions@, t@),
{
    let ghost s = instructions@;
    let n = instructions.len();
    let mut partners: Vec<Option<usize>> = Vec::new();
    let mut k: usize = 0;
    while k < n
        invariant
            k <= n == s.len(),
            partners@.len() == k,
            forall|j: int| 0 <= j < k ==> partners@[j] is None,
        decreases n - k,
    {
        partners.push(None);
        k = k + 1;
    }
    let mut stack: Vec<usize> = Vec::new();
    let mut i: usize = 0;
    while i < n
        invariant
            s == instructions@,
            n == s.len(),
            i <= n,
            partners@.len() == n,
            stack@.len() == depth(s, i as int),
            forall|k: int| 0 <= k <= i ==> depth(s, k) >= 0,
            forall|j: int|
                0 <= j < stack@.len() ==> {
                    let p = #[trigger] stack@[j] as int;
                    &&& p < i
                    &&& s[p] == Instruction::Forward
                    &&& depth(s, p) == j
                    &&& open_until(s, p, i as int)
                },
            forall|p: int|
                0 <= p < n ==> match s[p] {
                    Instruction::Forward => if p < i {
                        match #[trigger] partners@[p] {
                            Some(b) => matches(s, p, b as int),
                            None => open_until(s, p, i as int),
                        }
                    } else {
                        partners@[p] is None
                    },
                    Instruction::Backward => if p < i {
                        partners@[p] is Some && matches(s, partners@[p]->0 as int, p)
                    } else {
                        partners@[p] is None
                    },
                    _ => partners@[p] is None,
                },
        decreases n - i,
    {
        let ghost d = stack@.len() as int;
        assert(depth(s, i + 1) == depth(s, i as int) + delta(s[i as int]));
        match instructions[i] {
            Instruction::Forward => {
                proof {
                    assert forall|p: int|
                        0 <= p < i && s[p] == Instruction::Forward && open_until(
                            s,
                            p,
                            i as int,
                        ) implies depth(s, p) < d by {
                        assert(depth(s, i as int) > depth(s, p));
                    }
                }
                stack.push(i);
            },
            Instruction::Backward => {
                if stack.len() == 0 {
                    assert(depth(s, i + 1) < 0);
                    return Err(StructureError::Imbalanced);
                }
                let ghost before = stack@;
                let p = stack.pop().unwrap();
                assert(p == before[d - 1]);
                assert(depth(s, p as int) == d - 1);
                proof {
                    assert forall|q: int|
                        0 <= q < i && q != p && s[q] == Instruction::Forward && open_until(
                            s,
                            q,
                            i as int,
                        ) implies depth(s, q) < d - 1 by {
                        assert(depth(s, i as int) > depth(s, q));
                        if q < p {
                            assert(depth(s, p as int) > depth(s, q));
                        } else {
                            assert(depth(s, q) > depth(s, p as int));
                        }
                    }
                }
                partners.set(p, Some(i));
                partners.set(i, Some(p));
            },
            _ => {
                proof {
                    assert forall|p: int|
                        0 <= p < i && s[p] == Instruction::Forward && open_until(
                            s,
                            p,
                            i as int,
                        ) implies depth(s, p) < d by {
                        assert(depth(s, i as int) > depth(s, p));
                    }
                }
            },
        }
        i = i + 1;
    }
    if stack.len() != 0 {
        return Err(StructureError::Imbalanced);
    }
    proof {
        assert forall|p: int| 0 <= p < n && s[p] == Instruction::Forward implies #[trigger] partners@[p] is Some by {
            if partners@[p] is None {
                assert(depth(s, n as int) > depth(s, p));
            }
        }
    }
    Ok(JumpTable { partners })
}

} // verus!
