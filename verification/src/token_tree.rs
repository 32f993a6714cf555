//! The mathematical model of a tree of joiner tokens.
//!
//! Tokens are numbered in the order in which they were created; a token's
//! parent was created before it. A dropped token stays in the tree, since
//! the chain from its live descendants up to the root still passes through it.
use vstd::prelude::*;

use crate::error_action::{ErrorAction, ErrorActions, FailureHandler};
use crate::stop_reason::StopReason;

verus! {

/// What the tree records of one token.
#[derive(Debug)]
pub struct TokenState<H> {
    /// The token that this one was created from, if any.
    pub parent: Option<usize>,
    /// Whether the token is still held (not yet dropped).
    pub live: bool,
    /// What the token does with failures raised below it.
    pub handler: H,
}

/// Every token's parent was created before it.
pub open spec fn well_formed<H>(s: Seq<TokenState<H>>) -> bool {
    forall|i: int|
        0 <= i < s.len() ==> match #[trigger] s[i].parent {
            Some(p) => p < i,
            None => true,
        }
}

/// `a` lies on the chain of parents above token `j`.
pub open spec fn is_strict_ancestor<H>(s: Seq<TokenState<H>>, a: int, j: int) -> bool
    decreases j,
{
    if 0 <= j < s.len() {
        match s[j].parent {
            Some(p) => (p as int) < j && (p as int == a || is_strict_ancestor(s, a, p as int)),
            None => false,
        }
    } else {
        false
    }
}

/// `a` is `start` itself or lies above it (nothing, when `start` is `None`).
pub open spec fn on_chain<H>(s: Seq<TokenState<H>>, start: Option<usize>, a: int) -> bool {
    match start {
        Some(c) => a == c || is_strict_ancestor(s, a, c as int),
        None => false,
    }
}

/// The number of live tokens among the first `k` that lie below `a`.
pub open spec fn count_below<H>(s: Seq<TokenState<H>>, a: int, k: int) -> nat
    decreases k,
{
    if k <= 0 {
        0
    } else {
        count_below(s, a, k - 1) + if s[k - 1].live && is_strict_ancestor(s, a, k - 1) {
            1nat
        } else {
            0nat
        }
    }
}

/// The number of live tokens below `a`: what `a`'s counter holds.
pub open spec fn live_descendants<H>(s: Seq<TokenState<H>>, a: int) -> nat {
    count_below(s, a, s.len() as int)
}

/// The tree after a child of `parent` with the given handler was created.
pub open spec fn spec_create<H>(
    s: Seq<TokenState<H>>,
    parent: usize,
    handler: H,
) -> Seq<TokenState<H>> {
    s.push(TokenState { parent: Some(parent), live: true, handler })
}

/// The tree after token `t` was dropped.
pub open spec fn spec_drop<H>(s: Seq<TokenState<H>>, t: int) -> Seq<TokenState<H>> {
    s.update(t, TokenState { live: false, ..s[t] })
}

/// A child of `parent` can be created without any counter above it
/// overflowing.
pub open spec fn can_create_child<H>(s: Seq<TokenState<H>>, parent: int) -> bool {
    &&& 0 <= parent < s.len()
    &&& s[parent].live
    &&& forall|a: int|
        #![trigger live_descendants(s, a)]
        on_chain(s, Some(parent as usize), a) ==> live_descendants(s, a) < u32::MAX
}

/// Where a failure raised below a token ended up.
#[derive(Debug)]
pub enum Propagation<E> {
    /// The handler of the token with this id kept it.
    Caught(usize),
    /// Every handler on the way passed it on; this is the reason that the
    /// last one passed on (the raised one, when there was no handler above).
    Unhandled(StopReason<E>),
}

/// The outcome of handing `reason` to the handler of `start`, then whatever
/// that handler passes on to the handler of `start`'s parent, and so on up
/// to a root, stopping at the first handler that keeps the reason.
pub open spec fn propagate<H: FailureHandler<E>, E>(
    s: Seq<TokenState<H>>,
    start: Option<usize>,
    reason: StopReason<E>,
) -> Propagation<E>
    decreases
            match start {
                Some(c) => c as int + 1,
                None => 0,
            },
{
    match start {
        Some(c) => if c < s.len() && match s[c as int].parent {
            Some(p) => p < c,
            None => true,
        } {
            match s[c as int].handler.spec_on_error(reason) {
                Some(next) => propagate(s, s[c as int].parent, next),
                None => Propagation::Caught(c),
            }
        } else {
            Propagation::Unhandled(reason)
        },
        None => Propagation::Unhandled(reason),
    }
}

/// The outcome of raising `reason` on token `j`: it starts at `j`'s parent,
/// so `j`'s own handler is not consulted.
pub open spec fn raised<H: FailureHandler<E>, E>(
    s: Seq<TokenState<H>>,
    j: int,
    reason: StopReason<E>,
) -> Propagation<E> {
    propagate(s, s[j].parent, reason)
}

/// Whether the error actions of token `a` catch the given stop reason.
pub open spec fn catches<E>(s: Seq<TokenState<ErrorActions>>, a: int, reason: StopReason<E>) -> bool {
    s[a].handler.spec_action_for(reason) == ErrorAction::CatchAndLocalShutdown
}
/// A token's ancestors were created before it.
pub(crate) proof fn lemma_ancestor_smaller<H>(s: Seq<TokenState<H>>, a: int, j: int)
    requires
        is_strict_ancestor(s, a, j),
    ensures
        0 <= a < j < s.len(),
    decreases j,
{
    let p: int = s[j].parent->Some_0 as int;
    if p != a {
        lemma_ancestor_smaller(s, a, p);
    }
}

/// Ancestry below index `n` depends only on the parents of the first `n` tokens.
pub(crate) proof fn lemma_ancestor_same_parents<H>(s: Seq<TokenState<H>>, t: Seq<TokenState<H>>, n: int, a: int, j: int)
    requires
        n <= s.len(),
        n <= t.len(),
        forall|i: int| 0 <= i < n ==> #[trigger] s[i].parent == t[i].parent,
        0 <= j < n,
    ensures
        is_strict_ancestor(s, a, j) == is_strict_ancestor(t, a, j),
    decreases j,
{
    match s[j].parent {
        Some(p) => {
            if (p as int) < j {
                lemma_ancestor_same_parents(s, t, n, a, p as int);
            }
        },
        None => {},
    }
}

/// Counting over the first `k` tokens depends only on their parents and liveness.
pub(crate) proof fn lemma_count_same<H>(s: Seq<TokenState<H>>, t: Seq<TokenState<H>>, n: int, a: int, k: int)
    requires
        0 <= k <= n,
        n <= s.len(),
        n <= t.len(),
        forall|i: int| 0 <= i < n ==> #[trigger] s[i].parent == t[i].parent,
        forall|i: int| 0 <= i < k ==> #[trigger] s[i].live == t[i].live,
    ensures
        count_below(s, a, k) == count_below(t, a, k),
    decreases k,
{
    if k > 0 {
        lemma_count_same(s, t, n, a, k - 1);
        lemma_ancestor_same_parents(s, t, n, a, k - 1);
    }
}

/// No live token lies below `a` among the first `k` when none of them is a descendant.
pub(crate) proof fn lemma_count_zero<H>(s: Seq<TokenState<H>>, a: int, k: int)
    requires
        forall|j: int| 0 <= j < k ==> !is_strict_ancestor(s, a, j),
    ensures
        count_below(s, a, k) == 0,
    decreases k,
{
    if k > 0 {
        lemma_count_zero(s, a, k - 1);
    }
}

/// The count is zero exactly when no live token among the first `k` lies below `a`.
pub(crate) proof fn lemma_count_zero_iff<H>(s: Seq<TokenState<H>>, a: int, k: int)
    requires
        0 <= k <= s.len(),
    ensures
        count_below(s, a, k) == 0 <==> (forall|j: int|
            0 <= j < k && #[trigger] s[j].live ==> !is_strict_ancestor(s, a, j)),
    decreases k,
{
    if k > 0 {
        lemma_count_zero_iff(s, a, k - 1);
    }
}

/// Marking a live token `d` as dropped lowers the counts of exactly its ancestors by one.
pub(crate) proof fn lemma_count_drop<H>(s: Seq<TokenState<H>>, d: int, a: int, k: int)
    requires
        0 <= d < s.len(),
        s[d].live,
        0 <= k <= s.len(),
    ensures
        count_below(spec_drop(s, d), a, k) + (if d < k && is_strict_ancestor(s, a, d) {
            1int
        } else {
            0int
        }) == count_below(s, a, k),
    decreases k,
{
    let t = spec_drop(s, d);
    if k > 0 {
        lemma_count_drop(s, d, a, k - 1);
        assert forall|i: int| 0 <= i < s.len() implies #[trigger] s[i].parent == t[i].parent by {}
        lemma_ancestor_same_parents(s, t, s.len() as int, a, k - 1);
    }
}

/// Creating a child of `p` raises the counts of exactly `p` and its ancestors by one,
/// and the child has no descendants.
pub(crate) proof fn lemma_count_create<H>(s: Seq<TokenState<H>>, p: usize, handler: H, a: int)
    requires
        p < s.len(),
    ensures
        0 <= a < s.len() ==> live_descendants(spec_create(s, p, handler), a) == live_descendants(s, a)
            + if on_chain(s, Some(p), a) {
            1int
        } else {
            0int
        },
        live_descendants(spec_create(s, p, handler), s.len() as int) == 0,
{
    let t = spec_create(s, p, handler);
    let n: int = s.len() as int;
    assert forall|i: int| 0 <= i < n implies #[trigger] s[i].parent == t[i].parent by {}
    assert forall|i: int| 0 <= i < n implies #[trigger] s[i].live == t[i].live by {}
    lemma_count_same(s, t, n, a, n);
    lemma_ancestor_same_parents(s, t, n, a, p as int);
    assert forall|j: int| 0 <= j < n + 1 implies !is_strict_ancestor(t, n, j) by {
        if is_strict_ancestor(t, n, j) {
            lemma_ancestor_smaller(t, n, j);
        }
    }
    lemma_count_zero(t, n, n + 1);
}

/// Following the parent of `c` moves one step up a chain.
pub(crate) proof fn lemma_chain_step<H>(s: Seq<TokenState<H>>, c: usize, a: int)
    requires
        well_formed(s),
        c < s.len(),
    ensures
        on_chain(s, s[c as int].parent, a) == is_strict_ancestor(s, a, c as int),
        on_chain(s, Some(c), a) == (a == c || on_chain(s, s[c as int].parent, a)),
        is_strict_ancestor(s, a, c as int) ==> a != c,
{
    assert(match s[c as int].parent {
        Some(p) => p < c,
        None => true,
    });
    if is_strict_ancestor(s, a, c as int) {
        lemma_ancestor_smaller(s, a, c as int);
    }
}

/// The outcome of propagating from `start` depends only on the tokens up to `start`.
proof fn lemma_propagate_prefix<H: FailureHandler<E>, E>(
    s: Seq<TokenState<H>>,
    t: Seq<TokenState<H>>,
    n: int,
    start: Option<usize>,
    reason: StopReason<E>,
)
    requires
        n <= s.len(),
        n <= t.len(),
        forall|i: int| 0 <= i < n ==> #[trigger] s[i] == t[i],
        start matches Some(c) ==> c < n,
    ensures
        propagate(s, start, reason) == propagate(t, start, reason),
    decreases
            match start {
                Some(c) => c as int + 1,
                None => 0,
            },
{
    match start {
        Some(c) => {
            assert(s[c as int] == t[c as int]);
            match s[c as int].parent {
                Some(p) => {
                    if p < c {
                        match s[c as int].handler.spec_on_error(reason) {
                            Some(next) => lemma_propagate_prefix(s, t, n, s[c as int].parent, next),
                            None => {},
                        }
                    }
                },
                None => {},
            }
        },
        None => {},
    }
}

/// With error actions as handlers, propagating from `start` ends at the
/// nearest token at or above `start` that catches the reason, which is
/// passed on unchanged until then.
proof fn lemma_propagate_actions<E>(
    s: Seq<TokenState<ErrorActions>>,
    start: Option<usize>,
    reason: StopReason<E>,
)
    requires
        well_formed(s),
        start matches Some(c) ==> c < s.len(),
    ensures
        match propagate(s, start, reason) {
            Propagation::Caught(c) => on_chain(s, start, c as int) && catches(s, c as int, reason)
                && forall|b: int|
                #![trigger catches(s, b, reason)]
                on_chain(s, start, b) && c < b ==> !catches(s, b, reason),
            Propagation::Unhandled(passed) => passed == reason && forall|b: int|
                #![trigger catches(s, b, reason)]
                on_chain(s, start, b) ==> !catches(s, b, reason),
        },
    decreases
            match start {
                Some(c) => c as int + 1,
                None => 0,
            },
{
    match start {
        Some(c) => {
            assert forall|b: int| true implies #[trigger] on_chain(s, s[c as int].parent, b)
                == is_strict_ancestor(s, b, c as int) && on_chain(s, Some(c), b) == (b == c
                || on_chain(s, s[c as int].parent, b)) by {
                lemma_chain_step(s, c, b);
            }
            assert forall|b: int| on_chain(s, Some(c), b) implies b <= c by {
                if b != c {
                    lemma_ancestor_smaller(s, b, c as int);
                }
            }
            assert(match s[c as int].parent {
                Some(p) => p < c,
                None => true,
            });
            if !catches(s, c as int, reason) {
                lemma_propagate_actions(s, s[c as int].parent, reason);
            }
        },
        None => {},
    }
}

/// Raising a failure on token `j`: if `j` has no parent, it comes back
/// unhandled as it is; otherwise the parent's handler gets exactly the
/// raised reason, and either keeps it (the failure is caught there) or
/// passes a reason on, which is then raised on the parent in the same way.
pub proof fn law_raise_failure_steps<H: FailureHandler<E>, E>(
    s: Seq<TokenState<H>>,
    j: int,
    reason: StopReason<E>,
)
    requires
        well_formed(s),
        0 <= j < s.len(),
    ensures
        match s[j].parent {
            None => raised(s, j, reason) == Propagation::Unhandled(reason),
            Some(a) => raised(s, j, reason) == match s[a as int].handler.spec_on_error(reason) {
                None => Propagation::<E>::Caught(a),
                Some(next) => raised(s, a as int, next),
            },
        },
{
    assert(match s[j].parent {
        Some(p) => p < j,
        None => true,
    });
    match s[j].parent {
        Some(a) => {
            assert(match s[a as int].parent {
                Some(p) => p < a,
                None => true,
            });
        },
        None => {},
    }
}

/// The handler of the token that raises a failure is never consulted:
/// giving that token another handler changes nothing about the outcome.
pub proof fn law_own_handler_not_consulted<H: FailureHandler<E>, E>(
    s: Seq<TokenState<H>>,
    j: int,
    reason: StopReason<E>,
    other: H,
)
    requires
        well_formed(s),
        0 <= j < s.len(),
    ensures
        raised(s.update(j, TokenState { handler: other, ..s[j] }), j, reason) == raised(s, j, reason),
{
    let t = s.update(j, TokenState { handler: other, ..s[j] });
    assert(match s[j].parent {
        Some(p) => p < j,
        None => true,
    });
    assert(t[j].parent == s[j].parent);
    assert forall|i: int| 0 <= i < j implies #[trigger] s[i] == t[i] by {}
    lemma_propagate_prefix(s, t, j, s[j].parent, reason);
}

/// With error actions as handlers, a failure raised by token `j` is caught
/// by the nearest token above `j` whose actions catch it; when no token
/// above `j` catches it, it comes back unhandled and unchanged.
pub proof fn law_failure_caught_by_nearest_catcher<E>(
    s: Seq<TokenState<ErrorActions>>,
    j: int,
    reason: StopReason<E>,
)
    requires
        well_formed(s),
        0 <= j < s.len(),
    ensures
        match raised(s, j, reason) {
            Propagation::Caught(c) => is_strict_ancestor(s, c as int, j) && catches(s, c as int, reason)
                && forall|b: int|
                #![trigger catches(s, b, reason)]
                is_strict_ancestor(s, b, j) && c < b ==> !catches(s, b, reason),
            Propagation::Unhandled(passed) => passed == reason && forall|b: int|
                #![trigger catches(s, b, reason)]
                is_strict_ancestor(s, b, j) ==> !catches(s, b, reason),
        },
{
    assert(match s[j].parent {
        Some(p) => p < j,
        None => true,
    });
    assert forall|b: int| true implies #[trigger] on_chain(s, s[j].parent, b) == is_strict_ancestor(
        s,
        b,
        j,
    ) by {
        lemma_chain_step(s, j as usize, b);
    }
    lemma_propagate_actions(s, s[j].parent, reason);
}

/// Creating a child of `p` adds one to the count of `p` and of every token
/// above it, leaves all other counts alone, and the child counts nothing.
pub proof fn law_create_counts<H>(s: Seq<TokenState<H>>, p: usize, handler: H, a: int)
    requires
        well_formed(s),
        p < s.len(),
        0 <= a < s.len(),
    ensures
        well_formed(spec_create(s, p, handler)),
        live_descendants(spec_create(s, p, handler), a) == live_descendants(s, a) + if on_chain(
            s,
            Some(p),
            a,
        ) {
            1int
        } else {
            0int
        },
        live_descendants(spec_create(s, p, handler), s.len() as int) == 0,
{
    lemma_count_create(s, p, handler, a);
    let t = spec_create(s, p, handler);
    assert forall|i: int| 0 <= i < t.len() implies match #[trigger] t[i].parent {
        Some(q) => q < i,
        None => true,
    } by {
        if i < s.len() {
        }
    }
}

/// Dropping a live token takes one off the count of every token above it
/// and leaves all other counts alone.
pub proof fn law_drop_counts<H>(s: Seq<TokenState<H>>, d: int, a: int)
    requires
        well_formed(s),
        0 <= d < s.len(),
        s[d].live,
    ensures
        well_formed(spec_drop(s, d)),
        live_descendants(spec_drop(s, d), a) == live_descendants(s, a) - if is_strict_ancestor(
            s,
            a,
            d,
        ) {
            1int
        } else {
            0int
        },
{
    lemma_count_drop(s, d, a, s.len() as int);
    let t = spec_drop(s, d);
    assert forall|i: int| 0 <= i < t.len() implies match #[trigger] t[i].parent {
        Some(q) => q < i,
        None => true,
    } by {
    }
}

/// Creating a child and dropping it again leaves every count as it was.
pub proof fn law_create_then_drop_restores_counts<H>(
    s: Seq<TokenState<H>>,
    p: usize,
    handler: H,
    a: int,
)
    requires
        well_formed(s),
        p < s.len(),
        0 <= a < s.len(),
    ensures
        live_descendants(spec_drop(spec_create(s, p, handler), s.len() as int), a)
            == live_descendants(s, a),
{
    let t = spec_create(s, p, handler);
    let n: int = s.len() as int;
    law_create_counts(s, p, handler, a);
    law_drop_counts(t, n, a);
    assert forall|i: int| 0 <= i < n implies #[trigger] s[i].parent == t[i].parent by {}
    lemma_ancestor_same_parents(s, t, n, a, p as int);
}

/// A token's count is zero exactly when no live token lies below it: the
/// moment at which waiting for its children ends.
pub proof fn law_count_zero_iff_no_live_descendant<H>(s: Seq<TokenState<H>>, a: int)
    ensures
        live_descendants(s, a) == 0 <==> (forall|j: int|
            0 <= j < s.len() && #[trigger] s[j].live ==> !is_strict_ancestor(s, a, j)),
{
    lemma_count_zero_iff(s, a, s.len() as int);
}

/// With error actions as handlers: when the parent of `j` catches the kind
/// of `reason` (its panic action for a panic, its failure action for any
/// other reason), a failure raised on `j` is caught by that parent; when the
/// parent forwards it, the outcome is that of raising the same reason on
/// the parent.
pub proof fn law_parent_decides<E>(
    s: Seq<TokenState<ErrorActions>>,
    j: int,
    p: usize,
    reason: StopReason<E>,
)
    requires
        well_formed(s),
        0 <= j < s.len(),
        s[j].parent == Some(p),
    ensures
        (if reason is Panic {
            s[p as int].handler.on_panic
        } else {
            s[p as int].handler.on_failure
        }) == ErrorAction::CatchAndLocalShutdown ==> raised(s, j, reason) == Propagation::<E>::Caught(p),
        (if reason is Panic {
            s[p as int].handler.on_panic
        } else {
            s[p as int].handler.on_failure
        }) == ErrorAction::Forward ==> raised(s, j, reason) == raised(s, p as int, reason),
{
    assert(s[j].parent matches Some(q) && q < j);
    assert(match s[p as int].parent {
        Some(q) => q < p,
        None => true,
    });
}

} // verus!
