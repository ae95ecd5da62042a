//! Listing finalization: the definitions read from a directory are sorted by
//! name and given their temporary listing positions. Reading the directory
//! itself is the surrounding application's work.

use vstd::multiset::Multiset;
use vstd::prelude::*;

use crate::codec::Agent;
use crate::settings::clone_opt;

verus! {

/// Lexicographic order on character sequences, as the byte order of their
/// UTF-8 encodings also orders them.
pub open spec fn lex_le(a: Seq<char>, b: Seq<char>) -> bool
    decreases a.len(),
{
    if a.len() == 0 {
        true
    } else if b.len() == 0 {
        false
    } else if a[0] != b[0] {
        (a[0] as int) < (b[0] as int)
    } else {
        lex_le(a.drop_first(), b.drop_first())
    }
}

/// Any two strings are ordered one way or the other.
pub proof fn lemma_lex_total(a: Seq<char>, b: Seq<char>)
    ensures
        lex_le(a, b) || lex_le(b, a),
    decreases a.len(),
{
    if a.len() > 0 && b.len() > 0 && a[0] == b[0] {
        lemma_lex_total(a.drop_first(), b.drop_first());
    }
}

/// The order is transitive.
pub proof fn lemma_lex_trans(a: Seq<char>, b: Seq<char>, c: Seq<char>)
    requires
        lex_le(a, b),
        lex_le(b, c),
    ensures
        lex_le(a, c),
    decreases a.len(),
{
    if a.len() > 0 && b.len() > 0 && c.len() > 0 && a[0] == b[0] && b[0] == c[0] {
        lemma_lex_trans(a.drop_first(), b.drop_first(), c.drop_first());
    }
}

fn lex_le_from(a: &str, b: &str, i: usize) -> (r: bool)
    requires
        i <= a@.len(),
        i <= b@.len(),
    ensures
        r == lex_le(a@.subrange(i as int, a@.len() as int), b@.subrange(i as int, b@.len() as int)),
    decreases a@.len() - i,
{
    let ghost sa = a@.subrange(i as int, a@.len() as int);
    let ghost sb = b@.subrange(i as int, b@.len() as int);
    if i == a.unicode_len() {
        true
    } else if i == b.unicode_len() {
        false
    } else {
        let ca = a.get_char(i);
        let cb = b.get_char(i);
        if ca != cb {
            (ca as u32) < (cb as u32)
        } else {
            let r = lex_le_from(a, b, i + 1);
            proof {
                assert(sa.drop_first() =~= a@.subrange(i + 1, a@.len() as int));
                assert(sb.drop_first() =~= b@.subrange(i + 1, b@.len() as int));
            }
            r
        }
    }
}

/// Whether `a` comes no later than `b` in name order.
pub fn lex_le_exec(a: &str, b: &str) -> (r: bool)
    ensures
        r == lex_le(a@, b@),
{
    proof {
        assert(a@.subrange(0, a@.len() as int) =~= a@);
        assert(b@.subrange(0, b@.len() as int) =~= b@);
    }
    lex_le_from(a, b, 0)
}

/// The agent with its listing position blanked.
pub open spec fn strip_id(a: Agent) -> Agent {
    Agent { id: None, ..a }
}

/// All listing positions blanked.
pub open spec fn strip_ids(s: Seq<Agent>) -> Seq<Agent> {
    s.map_values(|a: Agent| strip_id(a))
}

/// Nondecreasing by name.
pub open spec fn sorted_by_name(s: Seq<Agent>) -> bool {
    forall|x: int, y: int| 0 <= x < y < s.len() ==> lex_le(s[x].name@, s[y].name@)
}

/// A field-for-field copy with the given listing position.
fn with_id(a: &Agent, id_val: i64) -> (r: Agent)
    ensures
        r.id == Some(id_val),
        strip_id(r) == strip_id(*a),
        r.name@ == a.name@,
{
    Agent {
        id: Option::Some(id_val),
        name: a.name.clone(),
        icon: a.icon.clone(),
        system_prompt: a.system_prompt.clone(),
        default_task: clone_opt(&a.default_task),
        model: a.model.clone(),
        enable_file_read: a.enable_file_read,
        enable_file_write: a.enable_file_write,
        enable_network: a.enable_network,
        hooks: clone_opt(&a.hooks),
        created_at: a.created_at.clone(),
        updated_at: a.updated_at.clone(),
        description: clone_opt(&a.description),
        tools: clone_opt(&a.tools),
        color: clone_opt(&a.color),
    }
}

/// Sorts a freshly read list of definitions by name and assigns the
/// temporary listing positions 1, 2, 3, ... in that order. Apart from the
/// positions, the result holds exactly the given definitions.
pub fn finalize_agent_list(agents: Vec<Agent>) -> (r: Vec<Agent>)
    requires
        agents@.len() < i64::MAX as int,
    ensures
        r@.len() == agents@.len(),
        sorted_by_name(r@),
        strip_ids(r@).to_multiset() == strip_ids(agents@).to_multiset(),
        forall|k: int| 0 <= k < r@.len() ==> #[trigger] r@[k].id == Some((k + 1) as i64),
{
    let ghost orig = strip_ids(agents@);
    let mut work = agents;
    let mut sorted: Vec<Agent> = Vec::new();
    proof {
        assert(strip_ids(sorted@) =~= Seq::<Agent>::empty());
        strip_ids(sorted@).to_multiset_ensures();
        assert(strip_ids(sorted@).to_multiset().add(strip_ids(work@).to_multiset())
            =~= orig.to_multiset());
    }
    while work.len() > 0
        invariant
            strip_ids(sorted@).to_multiset().add(strip_ids(work@).to_multiset())
                == orig.to_multiset(),
            sorted_by_name(sorted@),
            forall|x: int, y: int|
                0 <= x < sorted@.len() && 0 <= y < work@.len() ==> lex_le(
                    #[trigger] sorted@[x].name@,
                    #[trigger] work@[y].name@,
                ),
            sorted@.len() + work@.len() == orig.len(),
        decreases work.len(),
    {
        let mut mi: usize = 0;
        let mut k: usize = 1;
        proof {
            lemma_lex_total(work@[0].name@, work@[0].name@);
        }
        while k < work.len()
            invariant
                0 <= mi < k <= work@.len(),
                forall|j: int|
                    0 <= j < k ==> lex_le(work@[mi as int].name@, #[trigger] work@[j].name@),
            decreases work@.len() - k,
        {
            if lex_le_exec(work[mi].name.as_str(), work[k].name.as_str()) {
            } else {
                proof {
                    lemma_lex_total(work@[mi as int].name@, work@[k as int].name@);
                    assert forall|j: int| 0 <= j < k + 1 implies lex_le(
                        work@[k as int].name@,
                        #[trigger] work@[j].name@,
                    ) by {
                        if j < k {
                            lemma_lex_trans(
                                work@[k as int].name@,
                                work@[mi as int].name@,
                                work@[j].name@,
                            );
                        } else {
                            lemma_lex_total(work@[k as int].name@, work@[k as int].name@);
                        }
                    }
                }
                mi = k;
            }
            k = k + 1;
        }
        let ghost old_work = work@;
        let ghost old_sorted = sorted@;
        let x = work.remove(mi);
        sorted.push(x);
        proof {
            let e = strip_id(x);
            assert(strip_ids(old_work)[mi as int] == e);
            assert(strip_ids(work@) =~= strip_ids(old_work).remove(mi as int));
            assert(strip_ids(sorted@) =~= strip_ids(old_sorted).push(e));
            strip_ids(old_sorted).to_multiset_ensures();
            strip_ids(old_work).to_multiset_ensures();
            let ms = strip_ids(old_sorted).to_multiset();
            let mw = strip_ids(old_work).to_multiset();
            assert(strip_ids(sorted@).to_multiset() =~= ms.insert(e));
            assert(strip_ids(work@).to_multiset() =~= mw.remove(e));
            assert(strip_ids(old_work).contains(e)) by {
                assert(strip_ids(old_work)[mi as int] == e);
            }
            assert(mw.count(e) > 0);
            assert(ms.insert(e).add(mw.remove(e)) =~= ms.add(mw));
            assert(sorted_by_name(sorted@)) by {
                assert(forall|q: int|
                    0 <= q < old_sorted.len() ==> #[trigger] sorted@[q] == old_sorted[q]);
                assert(sorted@.last() == x);
                assert(lex_le(x.name@, old_work[mi as int].name@)) by {
                    lemma_lex_total(x.name@, x.name@);
                }
            }
            assert forall|a: int, b: int|
                0 <= a < sorted@.len() && 0 <= b < work@.len() implies lex_le(
                #[trigger] sorted@[a].name@,
                #[trigger] work@[b].name@,
            ) by {
                let wb = work@[b];
                assert(wb == if b < mi as int {
                    old_work[b]
                } else {
                    old_work[b + 1]
                });
                if a < old_sorted.len() {
                    assert(sorted@[a] == old_sorted[a]);
                } else {
                    assert(sorted@[a] == x);
                }
            }
        }
    }
    proof {
        assert(strip_ids(work@) =~= Seq::<Agent>::empty());
        strip_ids(work@).to_multiset_ensures();
        assert(strip_ids(work@).to_multiset() =~= Multiset::<Agent>::empty());
        assert(strip_ids(sorted@).to_multiset().add(Multiset::<Agent>::empty()) =~= strip_ids(
            sorted@,
        ).to_multiset());
    }
    let n = sorted.len();
    let mut out: Vec<Agent> = Vec::new();
    let mut k: usize = 0;
    while k < n
        invariant
            0 <= k <= n,
            n == sorted@.len(),
            n < i64::MAX,
            out@.len() == k,
            sorted_by_name(sorted@),
            strip_ids(sorted@).to_multiset() == orig.to_multiset(),
            orig.len() == n,
            forall|q: int| 0 <= q < k ==> #[trigger] out@[q].id == Some((q + 1) as i64),
            forall|q: int| 0 <= q < k ==> strip_id(#[trigger] out@[q]) == strip_id(sorted@[q]),
            forall|q: int| 0 <= q < k ==> (#[trigger] out@[q]).name@ == sorted@[q].name@,
        decreases n - k,
    {
        let a = with_id(&sorted[k], (k + 1) as i64);
        out.push(a);
        k = k + 1;
    }
    proof {
        assert(strip_ids(out@) =~= strip_ids(sorted@));
        assert(sorted_by_name(out@)) by {
            assert forall|x: int, y: int| 0 <= x < y < out@.len() implies lex_le(
                out@[x].name@,
                out@[y].name@,
            ) by {
                assert(out@[x].name@ == sorted@[x].name@);
                assert(out@[y].name@ == sorted@[y].name@);
            }
        }
    }
    out
}

} // verus!
