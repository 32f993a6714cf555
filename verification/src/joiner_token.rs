//! The joiner-token tree: every token counts the live tokens below it in a
//! `tokio::sync::watch` channel, so that a holder can wait until all of its
//! descendants are gone, and failures travel up the tree until a token
//! catches them.
use vstd::prelude::*;
use vstd::string::*;

use tokio::sync::watch;

use crate::error_action::FailureHandler;
use crate::errors::SubsystemError;
use crate::stop_reason::StopReason;
use crate::token_tree::{
    can_create_child, lemma_ancestor_smaller, lemma_chain_step, lemma_count_create, lemma_count_drop,
    lemma_count_same, lemma_count_zero, live_descendants, is_strict_ancestor, on_chain, propagate,
    raised, spec_create, spec_drop, well_formed, Propagation, TokenState,
};

verus! {

#[verifier::external_type_specification]
#[verifier::external_body]
#[verifier::reject_recursive_types(T)]
pub struct ExWatchSender<T>(watch::Sender<T>);

#[verifier::external_type_specification]
#[verifier::external_body]
#[verifier::reject_recursive_types(T)]
pub struct ExWatchReceiver<T>(watch::Receiver<T>);

/// The value that a `watch` channel of counters currently holds.
pub uninterp spec fn watched_count(sender: watch::Sender<u32>) -> u32;

/// Calls `tokio::sync::watch::channel(init)` and keeps the sender: the new
/// channel holds `init`.
#[verifier::external_body]
fn counter_channel(init: u32) -> (sender: watch::Sender<u32>)
    ensures
        watched_count(sender) == init,
{
    watch::channel(init).0
}

/// Calls `tokio::sync::watch::Sender::borrow` and copies the value out: the
/// value the channel holds.
#[verifier::external_body]
fn counter_value(sender: &watch::Sender<u32>) -> (value: u32)
    ensures
        value == watched_count(*sender),
{
    *sender.borrow()
}

/// Calls `tokio::sync::watch::Sender::send_modify`, which applies the closure
/// to the held value in place (also when no receiver exists): the value is
/// stepped by one in the given direction. The tree owns its senders and
/// hands none of them out, so no other code changes the value.
#[verifier::external_body]
fn counter_modify(sender: &mut watch::Sender<u32>, up: bool)
    requires
        up ==> watched_count(*old(sender)) < u32::MAX,
        !up ==> watched_count(*old(sender)) > 0,
    ensures
        watched_count(*final(sender)) == stepped(watched_count(*old(sender)), up),
{
    sender.send_modify(|value| step_count(value, up))
}

/// Calls `tokio::sync::watch::Sender::subscribe`: a receiver of the channel.
/// Nothing is stated of the receiver: the value it shows follows the sender
/// over time, and which channel it belongs to is a matter of the channel's
/// address, so neither can be named as a function of the values here.
#[verifier::external_body]
fn counter_subscribe(sender: &watch::Sender<u32>) -> watch::Receiver<u32> {
    sender.subscribe()
}

/// A counter value stepped by one up or down.
pub open spec fn stepped(value: u32, up: bool) -> int {
    if up {
        value + 1
    } else {
        value - 1
    }
}

/// Steps a counter value by one up or down.
fn step_count(value: &mut u32, up: bool)
    requires
        up ==> *old(value) < u32::MAX,
        !up ==> *old(value) > 0,
    ensures
        *final(value) == stepped(*old(value), up),
{
    if up {
        *value = *value + 1;
    } else {
        *value = *value - 1;
    }
}

/// The character of a decimal digit.
pub open spec fn digit_char(d: nat) -> char {
    if d == 0 {
        '0'
    } else if d == 1 {
        '1'
    } else if d == 2 {
        '2'
    } else if d == 3 {
        '3'
    } else if d == 4 {
        '4'
    } else if d == 5 {
        '5'
    } else if d == 6 {
        '6'
    } else if d == 7 {
        '7'
    } else if d == 8 {
        '8'
    } else {
        '9'
    }
}

/// The decimal notation of `n`, without leading zeros.
pub open spec fn decimal(n: nat) -> Seq<char>
    decreases n,
{
    if n < 10 {
        seq![digit_char(n)]
    } else {
        decimal(n / 10).push(digit_char(n % 10))
    }
}

/// How a token shows itself in debug output.
pub open spec fn debug_text_of(children: nat) -> Seq<char> {
    "JoinerToken(children = "@ + decimal(children) + ")"@
}

/// The one-character text of a decimal digit.
fn digit_str(d: u32) -> (text: &'static str)
    requires
        d < 10,
    ensures
        text@ == seq![digit_char(d as nat)],
{
    let text = match d {
        0 => {
            proof {
                reveal_strlit("0");
            }
            "0"
        },
        1 => {
            proof {
                reveal_strlit("1");
            }
            "1"
        },
        2 => {
            proof {
                reveal_strlit("2");
            }
            "2"
        },
        3 => {
            proof {
                reveal_strlit("3");
            }
            "3"
        },
        4 => {
            proof {
                reveal_strlit("4");
            }
            "4"
        },
        5 => {
            proof {
                reveal_strlit("5");
            }
            "5"
        },
        6 => {
            proof {
                reveal_strlit("6");
            }
            "6"
        },
        7 => {
            proof {
                reveal_strlit("7");
            }
            "7"
        },
        8 => {
            proof {
                reveal_strlit("8");
            }
            "8"
        },
        _ => {
            proof {
                reveal_strlit("9");
            }
            "9"
        },
    };
    text
}

/// Appends the decimal notation of `n` to `text`.
fn push_decimal(text: &mut String, n: u32)
    ensures
        final(text)@ == old(text)@ + decimal(n as nat),
    decreases n,
{
    if n >= 10 {
        push_decimal(text, n / 10);
    }
    text.append(digit_str(n % 10));
}

/// What the runtime does once a subsystem stopped.
#[derive(Debug)]
pub enum StopAction<E> {
    /// Nothing: the subsystem did not fail, or what came back is no failure.
    Nothing,
    /// The handler of the token with this id kept the failure.
    Caught(usize),
    /// The failure came back unhandled; report this error.
    Report(SubsystemError<E>),
}

/// What the runtime does once the subsystem of token `j`, named `name`,
/// stopped for `reason`.
pub open spec fn spec_route_stop<H: FailureHandler<E>, E>(
    s: Seq<TokenState<H>>,
    j: int,
    name: String,
    reason: StopReason<E>,
) -> StopAction<E> {
    if !reason.spec_is_failure() {
        StopAction::Nothing
    } else {
        match raised(s, j, reason) {
            Propagation::Caught(c) => StopAction::Caught(c),
            Propagation::Unhandled(passed) => match SubsystemError::spec_from_stop_reason(name, passed) {
                Some(error) => StopAction::Report(error),
                None => StopAction::Nothing,
            },
        }
    }
}

/// A tree of joiner tokens, each named by the id it got when it was created.
/// `H` is the type of the handlers that the tokens apply to failures raised
/// below them.
pub struct JoinerTree<H> {
    states: Vec<TokenState<H>>,
    counters: Vec<watch::Sender<u32>>,
}

/// Every counter holds the number of live tokens below its token.
pub open spec fn counters_match<H>(s: Seq<TokenState<H>>, counters: Seq<watch::Sender<u32>>) -> bool {
    &&& s.len() == counters.len()
    &&& well_formed(s)
    &&& forall|i: int|
        0 <= i < s.len() ==> watched_count(#[trigger] counters[i]) == live_descendants(s, i)
}

impl<H> View for JoinerTree<H> {
    type V = Seq<TokenState<H>>;

    closed spec fn view(&self) -> Seq<TokenState<H>> {
        self.states@
    }
}

/// Steps the counters of `start` and of every token above it.
fn step_chain<H>(
    states: &Vec<TokenState<H>>,
    counters: &mut Vec<watch::Sender<u32>>,
    start: Option<usize>,
    up: bool,
)
    requires
        well_formed(states@),
        states.len() == old(counters).len(),
        start matches Some(c) ==> c < states.len(),
        forall|a: int|
            0 <= a < states.len() && on_chain(states@, start, a) ==> (up ==> watched_count(
                #[trigger] old(counters)@[a],
            ) < u32::MAX) && (!up ==> watched_count(old(counters)@[a]) > 0),
    ensures
        final(counters).len() == old(counters).len(),
        forall|a: int|
            0 <= a < states.len() ==> watched_count(#[trigger] final(counters)@[a]) == if on_chain(
                states@,
                start,
                a,
            ) {
                stepped(watched_count(old(counters)@[a]), up)
            } else {
                watched_count(old(counters)@[a]) as int
            },
{
    let ghost s = states@;
    let ghost before = counters@;
    let mut cur = start;
    while cur.is_some()
        invariant
            well_formed(s),
            s == states@,
            s.len() == counters.len(),
            before.len() == s.len(),
            cur matches Some(c) ==> c < s.len(),
            forall|a: int| on_chain(s, cur, a) ==> on_chain(s, start, a),
            forall|a: int|
                0 <= a < s.len() && on_chain(s, start, a) ==> (up ==> watched_count(
                    #[trigger] before[a],
                ) < u32::MAX) && (!up ==> watched_count(before[a]) > 0),
            forall|a: int|
                0 <= a < s.len() ==> watched_count(#[trigger] counters@[a]) == if on_chain(
                    s,
                    start,
                    a,
                ) && !on_chain(s, cur, a) {
                    stepped(watched_count(before[a]), up)
                } else {
                    watched_count(before[a]) as int
                },
        decreases
                match cur {
                    Some(c) => c as int + 1,
                    None => 0,
                },
    {
        let c: usize = cur.unwrap();
        proof {
            assert forall|a: int| true implies #[trigger] on_chain(s, s[c as int].parent, a)
                == is_strict_ancestor(s, a, c as int) && on_chain(s, Some(c), a) == (a == c
                || on_chain(s, s[c as int].parent, a)) && (is_strict_ancestor(s, a, c as int)
                ==> a != c) by {
                lemma_chain_step(s, c, a);
            }
        }
        counter_modify(&mut counters[c], up);
        cur = states[c].parent;
        proof {
            assert(match s[c as int].parent {
                Some(p) => p < c,
                None => true,
            });
        }
    }
}

impl<H> JoinerTree<H> {
    #[verifier::type_invariant]
    spec fn counts_are_live_descendants(self) -> bool {
        counters_match(self.states@, self.counters@)
    }

    /// An empty tree.
    pub fn new() -> (tree: Self)
        ensures
            tree@ == Seq::<TokenState<H>>::empty(),
            well_formed(tree@),
    {
        JoinerTree { states: Vec::new(), counters: Vec::new() }
    }

    /// The number of tokens ever created in the tree; every token's parent
    /// was created before it.
    pub fn len(&self) -> (n: usize)
        ensures
            n == self@.len(),
            well_formed(self@),
    {
        proof {
            use_type_invariant(self);
        }
        self.states.len()
    }

    /// Creates a token without a parent; it counts nothing yet.
    pub fn new_root_token(&mut self, handler: H) -> (token: usize)
        ensures
            token == old(self)@.len(),
            final(self)@ == old(self)@.push(TokenState { parent: None, live: true, handler }),
            well_formed(final(self)@),
    {
        proof {
            use_type_invariant(&*self);
        }
        let mut tree = JoinerTree::new();
        std::mem::swap(&mut tree, self);
        let JoinerTree { mut states, mut counters } = tree;
        let ghost s = states@;
        let token: usize = states.len();
        states.push(TokenState { parent: None, live: true, handler });
        counters.push(counter_channel(0));
        proof {
            let t = states@;
            let n: int = s.len() as int;
            assert forall|i: int| 0 <= i < n implies #[trigger] s[i].parent == t[i].parent by {}
            assert forall|i: int| 0 <= i < n implies #[trigger] s[i].live == t[i].live by {}
            assert forall|a: int| 0 <= a < t.len() implies watched_count(#[trigger] counters@[a])
                == live_descendants(t, a) by {
                lemma_count_same(s, t, n, a, n);
                if a == n {
                    assert forall|j: int| 0 <= j < n + 1 implies !is_strict_ancestor(t, a, j) by {
                        if is_strict_ancestor(t, a, j) {
                            lemma_ancestor_smaller(t, a, j);
                        }
                    }
                    lemma_count_zero(t, a, n + 1);
                }
            }
        }
        *self = JoinerTree { states, counters };
        token
    }

    /// Creates a child of `parent`. The counters of `parent` and of every
    /// token above it go up by one; the child counts nothing yet.
    pub fn create_child_token(&mut self, parent: usize, handler: H) -> (child: usize)
        requires
            can_create_child(old(self)@, parent as int),
        ensures
            child == old(self)@.len(),
            final(self)@ == spec_create(old(self)@, parent, handler),
            well_formed(final(self)@),
    {
        proof {
            use_type_invariant(&*self);
        }
        let mut tree = JoinerTree::new();
        std::mem::swap(&mut tree, self);
        let JoinerTree { mut states, mut counters } = tree;
        let ghost s = states@;
        step_chain(&states, &mut counters, Some(parent), true);
        let child: usize = states.len();
        states.push(TokenState { parent: Some(parent), live: true, handler });
        counters.push(counter_channel(0));
        proof {
            let t = states@;
            assert forall|a: int| 0 <= a < t.len() implies watched_count(#[trigger] counters@[a])
                == live_descendants(t, a) by {
                lemma_count_create(s, parent, handler, a);
            }
            assert forall|i: int| 0 <= i < t.len() implies match #[trigger] t[i].parent {
                Some(p) => p < i,
                None => true,
            } by {}
        }
        *self = JoinerTree { states, counters };
        child
    }

    /// Drops a live token. The counters of every token above it go down by one.
    pub fn drop_token(&mut self, token: usize)
        requires
            token < old(self)@.len(),
            old(self)@[token as int].live,
        ensures
            final(self)@ == spec_drop(old(self)@, token as int),
            well_formed(final(self)@),
    {
        proof {
            use_type_invariant(&*self);
        }
        let mut tree = JoinerTree::new();
        std::mem::swap(&mut tree, self);
        let JoinerTree { mut states, mut counters } = tree;
        let ghost s = states@;
        let parent = states[token].parent;
        proof {
            assert forall|a: int|
                0 <= a < s.len() && on_chain(s, parent, a) implies watched_count(
                #[trigger] counters@[a],
            ) > 0 by {
                lemma_chain_step(s, token, a);
                lemma_count_drop(s, token as int, a, s.len() as int);
            }
        }
        step_chain(&states, &mut counters, parent, false);
        states[token].live = false;
        proof {
            let t = states@;
            assert forall|a: int| 0 <= a < t.len() implies watched_count(#[trigger] counters@[a])
                == live_descendants(t, a) by {
                lemma_chain_step(s, token, a);
                lemma_count_drop(s, token as int, a, s.len() as int);
            }
            assert forall|i: int| 0 <= i < t.len() implies match #[trigger] t[i].parent {
                Some(p) => p < i,
                None => true,
            } by {}
        }
        *self = JoinerTree { states, counters };
    }

    /// The number of live tokens below `token`, as its counter holds it.
    pub fn count(&self, token: usize) -> (n: u32)
        requires
            token < self@.len(),
        ensures
            n == live_descendants(self@, token as int),
    {
        proof {
            use_type_invariant(self);
        }
        counter_value(&self.counters[token])
    }

    /// Whether `token` is still held.
    pub fn is_live(&self, token: usize) -> (live: bool)
        requires
            token < self@.len(),
        ensures
            live == self@[token as int].live,
    {
        self.states[token].live
    }

    /// The parent of `token`.
    pub fn parent(&self, token: usize) -> (parent: Option<usize>)
        requires
            token < self@.len(),
        ensures
            parent == self@[token as int].parent,
    {
        self.states[token].parent
    }

    /// Whether a child of `parent` can be created without a counter overflowing:
    /// `parent` is live and it and every token above it count fewer than
    /// `u32::MAX` live descendants.
    pub fn can_create_child(&self, parent: usize) -> (ok: bool)
        ensures
            ok == can_create_child(self@, parent as int),
    {
        proof {
            use_type_invariant(self);
        }
        if parent >= self.states.len() || !self.states[parent].live {
            return false;
        }
        let ghost s = self.states@;
        let mut cur = Some(parent);
        while cur.is_some()
            invariant
                well_formed(s),
                s == self.states@,
                counters_match(s, self.counters@),
                parent < s.len(),
                cur matches Some(c) ==> c < s.len(),
                forall|a: int| on_chain(s, cur, a) ==> on_chain(s, Some(parent), a),
                forall|a: int|
                    #![trigger live_descendants(s, a)]
                    on_chain(s, Some(parent), a) && !on_chain(s, cur, a) ==> live_descendants(s, a)
                        < u32::MAX,
            decreases
                    match cur {
                        Some(c) => c as int + 1,
                        None => 0,
                    },
        {
            let c: usize = cur.unwrap();
            proof {
                assert forall|a: int| true implies #[trigger] on_chain(s, s[c as int].parent, a)
                    == is_strict_ancestor(s, a, c as int) && on_chain(s, Some(c), a) == (a == c
                    || on_chain(s, s[c as int].parent, a)) by {
                    lemma_chain_step(s, c, a);
                }
                assert(on_chain(s, Some(c), c as int));
                assert(match s[c as int].parent {
                    Some(p) => p < c,
                    None => true,
                });
            }
            if counter_value(&self.counters[c]) == u32::MAX {
                return false;
            }
            cur = self.states[c].parent;
        }
        true
    }

    /// Raises a failure of `token`: the handler of `token`'s parent gets
    /// `reason` and either keeps it or passes a reason on to the handler of
    /// its own parent, and so on up to a root. The outcome names the token
    /// whose handler kept it, or is the reason that reached the top. Dropped
    /// tokens on the way still decide; `token`'s own handler is not consulted.
    pub fn raise_failure<E>(&self, token: usize, reason: StopReason<E>) -> (outcome: Propagation<E>) where
        H: FailureHandler<E>,

        requires
            token < self@.len(),
        ensures
            outcome == raised(self@, token as int, reason),
    {
        proof {
            use_type_invariant(self);
        }
        let ghost s = self.states@;
        let mut cur = self.states[token].parent;
        let mut current = reason;
        proof {
            assert(match s[token as int].parent {
                Some(p) => p < token,
                None => true,
            });
        }
        while cur.is_some()
            invariant
                well_formed(s),
                s == self.states@,
                token < s.len(),
                cur matches Some(c) ==> c < s.len(),
                raised(s, token as int, reason) == propagate(s, cur, current),
            decreases
                    match cur {
                        Some(c) => c as int + 1,
                        None => 0,
                    },
        {
            let c: usize = cur.unwrap();
            proof {
                assert(match s[c as int].parent {
                    Some(p) => p < c,
                    None => true,
                });
            }
            match self.states[c].handler.on_error(current) {
                Some(next) => {
                    current = next;
                    cur = self.states[c].parent;
                },
                None => {
                    return Propagation::Caught(c);
                },
            }
        }
        Propagation::Unhandled(current)
    }

    /// What the runtime does once the subsystem of `token`, named `name`,
    /// stopped for `reason`: a reason that is no failure is not raised; a
    /// failure is raised on `token`, and if it comes back unhandled, the
    /// subsystem error it amounts to is reported.
    pub fn route_stop<E>(&self, token: usize, name: String, reason: StopReason<E>) -> (action:
        StopAction<E>) where H: FailureHandler<E>,

        requires
            token < self@.len(),
        ensures
            action == spec_route_stop(self@, token as int, name, reason),
            !reason.spec_is_failure() ==> action == StopAction::<E>::Nothing,
            reason.spec_is_failure() ==> match raised(self@, token as int, reason) {
                Propagation::Caught(c) => action == StopAction::<E>::Caught(c),
                Propagation::Unhandled(StopReason::Panic) => action == StopAction::Report(
                    SubsystemError::<E>::Panicked(name),
                ),
                Propagation::Unhandled(StopReason::Error(e)) => action == StopAction::Report(
                    SubsystemError::Failed(name, e),
                ),
                Propagation::Unhandled(_) => action == StopAction::<E>::Nothing,
            },
    {
        if !reason.is_failure() {
            return StopAction::Nothing;
        }
        match self.raise_failure(token, reason) {
            Propagation::Caught(c) => StopAction::Caught(c),
            Propagation::Unhandled(passed) => match SubsystemError::from_stop_reason(name, passed) {
                Some(error) => StopAction::Report(error),
                None => StopAction::Nothing,
            },
        }
    }

    /// The debug text of `token`: `JoinerToken(children = N)`, where `N` is
    /// its count.
    pub fn debug_text(&self, token: usize) -> (text: String)
        requires
            token < self@.len(),
        ensures
            text@ == debug_text_of(live_descendants(self@, token as int)),
    {
        let mut text = String::from_str("JoinerToken(children = ");
        push_decimal(&mut text, self.count(token));
        text.append(")");
        text
    }

    /// A receiver of `token`'s counter, through which the runtime waits
    /// until the counter reaches zero.
    pub fn subscribe(&self, token: usize) -> watch::Receiver<u32>
        requires
            token < self@.len(),
    {
        proof {
            use_type_invariant(self);
        }
        counter_subscribe(&self.counters[token])
    }
}

/// After a subsystem stopped: a stop that is no failure leads to nothing; a
/// failure that a handler above kept leads to the local shutdown of that
/// handler's token; a failure that comes back unhandled as a panic or an
/// error is reported as the panic or the error of the named subsystem, and
/// one that comes back as another reason leads to nothing.
pub proof fn law_route_stop<H: FailureHandler<E>, E>(
    s: Seq<TokenState<H>>,
    j: int,
    name: String,
    reason: StopReason<E>,
)
    ensures
        !(reason is Panic || reason is Error) ==> spec_route_stop(s, j, name, reason)
            == StopAction::<E>::Nothing,
        (reason is Panic || reason is Error) ==> match raised(s, j, reason) {
            Propagation::Caught(c) => spec_route_stop(s, j, name, reason) == StopAction::<E>::Caught(c),
            Propagation::Unhandled(StopReason::Panic) => spec_route_stop(s, j, name, reason)
                == StopAction::Report(SubsystemError::<E>::Panicked(name)),
            Propagation::Unhandled(StopReason::Error(e)) => spec_route_stop(s, j, name, reason)
                == StopAction::Report(SubsystemError::Failed(name, e)),
            Propagation::Unhandled(_) => spec_route_stop(s, j, name, reason)
                == StopAction::<E>::Nothing,
        },
{
}

} // verus!
