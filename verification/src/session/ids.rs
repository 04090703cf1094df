//! Identities made from a running number.
use vstd::prelude::*;
use vstd::string::*;

use crate::text::{decimal, lemma_decimal_injective, lemma_span_is, push_decimal};

verus! {

/// What an identity is for; it decides the prefix.
#[derive(Debug, Clone, Copy, PartialEq, Eq, Structural)]
pub enum IdKind {
    Session,
    Message,
    Turn,
    Step,
    ToolCall,
    Task,
}

impl IdKind {
    /// The prefix of identities of this kind.
    pub open spec fn prefix_view(self) -> Seq<char> {
        match self {
            IdKind::Session => "sess"@,
            IdKind::Message => "msg"@,
            IdKind::Turn => "turn"@,
            IdKind::Step => "step"@,
            IdKind::ToolCall => "call"@,
            IdKind::Task => "task"@,
        }
    }

    /// The prefix of identities of this kind.
    pub fn prefix(self) -> (s: &'static str)
        ensures
            s@ == self.prefix_view(),
    {
        match self {
            IdKind::Session => "sess",
            IdKind::Message => "msg",
            IdKind::Turn => "turn",
            IdKind::Step => "step",
            IdKind::ToolCall => "call",
            IdKind::Task => "task",
        }
    }
}

/// The running number that identities are made from. There is one for the whole harness.
#[derive(Debug)]
pub struct Ids {
    next: u64,
}

impl Ids {
    /// The number of the next identity.
    pub closed spec fn at(self) -> u64 {
        self.next
    }

    /// Starts at zero.
    pub fn new() -> (r: Ids)
        ensures
            r.at() == 0,
    {
        Ids { next: 0 }
    }
}

/// The number that follows `n`; the largest is followed by zero.
pub open spec fn after(n: u64) -> u64 {
    if n == u64::MAX {
        0
    } else {
        (n + 1) as u64
    }
}

/// The number `k` steps after `n`.
pub open spec fn later(n: u64, k: nat) -> u64
    decreases k,
{
    if k == 0 {
        n
    } else {
        after(later(n, (k - 1) as nat))
    }
}

/// The identity of the given kind with number `n`.
pub open spec fn id_text(kind: IdKind, n: u64) -> Seq<char> {
    kind.prefix_view() + "-"@ + decimal(n as nat)
}

/// Makes the next identity of the given kind.
pub fn next_id(ids: &mut Ids, kind: IdKind) -> (r: String)
    ensures
        r@ == id_text(kind, old(ids).at()),
        final(ids).at() == after(old(ids).at()),
{
    let n = ids.next;
    ids.next = n.wrapping_add(1);
    let mut s = kind.prefix().to_owned();
    s.append("-");
    push_decimal(&mut s, n);
    s
}

/// Makes the identity of a tool call.
pub fn next_call_id(ids: &mut Ids) -> (r: String)
    ensures
        r@ == id_text(IdKind::ToolCall, old(ids).at()),
        final(ids).at() == after(old(ids).at()),
{
    next_id(ids, IdKind::ToolCall)
}

proof fn lemma_prefix(kind: IdKind, n: u64)
    ensures
        crate::text::span(id_text(kind, n), '-') == kind.prefix_view().len(),
        id_text(kind, n).take(kind.prefix_view().len() as int) == kind.prefix_view(),
        id_text(kind, n).skip(kind.prefix_view().len() as int + 1) == decimal(n as nat),
{
    reveal_strlit("sess");
    reveal_strlit("msg");
    reveal_strlit("turn");
    reveal_strlit("step");
    reveal_strlit("call");
    reveal_strlit("task");
    reveal_strlit("-");
    let p = kind.prefix_view();
    let id = id_text(kind, n);
    assert forall|j: int| 0 <= j < p.len() implies id[j] != '-' by {
        assert(id[j] == p[j]);
    }
    assert(id[p.len() as int] == '-');
    lemma_span_is(id, '-', p.len() as int);
    assert(id.take(p.len() as int) =~= p);
    assert(id.skip(p.len() as int + 1) =~= decimal(n as nat));
}

/// Identities of different kinds or numbers differ.
pub proof fn lemma_ids_distinct(k1: IdKind, n1: u64, k2: IdKind, n2: u64)
    requires
        id_text(k1, n1) == id_text(k2, n2),
    ensures
        k1 == k2,
        n1 == n2,
{
    lemma_prefix(k1, n1);
    lemma_prefix(k2, n2);
    lemma_decimal_injective(n1 as nat, n2 as nat);
    reveal_strlit("sess");
    reveal_strlit("msg");
    reveal_strlit("turn");
    reveal_strlit("step");
    reveal_strlit("call");
    reveal_strlit("task");
    let p = k1.prefix_view();
    let q = k2.prefix_view();
    assert(p == q);
    assert(p[0] == q[0] && p[1] == q[1]);
}

} // verus!
