//! The connection manager: owns the resolved address set, the load-balancing
//! state and the reuse cap, and makes every create/recycle decision.

use vstd::prelude::*;

use crate::addr::AddressFamily;
use crate::addr::ResolutionError;
use crate::addr::SockAddr;
use crate::addr::filter_addresses;
use crate::addr::filter_family;
use crate::balance::LoadBalancing;
use crate::balance::random_index;
use crate::validate::ProbeErrorKind;
use crate::validate::ProbeOutcome;
use crate::validate::RecycleError;
use crate::validate::classify_probe_spec;
use crate::validate::probe_verdict;
use crate::validate::probe_verdict_spec;
use vstd::arithmetic::div_mod::lemma_add_mod_noop;
use vstd::arithmetic::div_mod::lemma_mod_bound;
use vstd::arithmetic::div_mod::lemma_mod_multiples_vanish;
use vstd::arithmetic::div_mod::lemma_small_mod;
use vstd::seq_lib::lemma_multiset_commutative;

verus! {

/// Policy object registered with the pool. The address set is fixed at
/// construction; the only state that ever changes afterwards is the
/// round-robin cursor, and only under the `Next` strategy.
#[derive(Debug)]
pub struct TcpConnectionManager {
    /// Resolved addresses, already filtered to the requested family.
    pub addrs: Vec<SockAddr>,
    /// Round-robin cursor: index of the address the next `Next` selection
    /// returns.
    pub addr_index_next: usize,
    /// The selection strategy, fixed at construction.
    pub lb_algorithm: LoadBalancing,
    /// A connection is retired once its reuse count reaches this cap.
    pub max_requests: usize,
}

impl TcpConnectionManager {
    /// The manager's invariant: at least one address survived filtering, and
    /// the cursor is a valid index into the address set.
    pub open spec fn wf(self) -> bool {
        self.addrs@.len() > 0 && (self.addr_index_next as int) < self.addrs@.len()
    }

    /// Runtime check of the invariant, for unverified callers.
    pub fn well_formed(&self) -> (b: bool)
        ensures
            b == self.wf(),
    {
        self.addrs.len() > 0 && self.addr_index_next < self.addrs.len()
    }

    /// Builds a manager over the already-resolved `addrs`, keeping only the
    /// addresses admitted by `address_family`, in order. Fails when filtering
    /// leaves no candidate, so a constructed manager always satisfies `wf`.
    pub fn new(
        addrs: Vec<SockAddr>,
        address_family: AddressFamily,
        lb_algorithm: LoadBalancing,
        max_requests: usize,
    ) -> (r: Result<Self, ResolutionError>)
        ensures
            r is Ok <==> filter_family(addrs@, address_family).len() > 0,
            r matches Ok(m) ==> m.wf() && m.addrs@ == filter_family(addrs@, address_family)
                && m.addr_index_next == 0 && m.lb_algorithm == lb_algorithm && m.max_requests
                == max_requests,
            r is Err ==> r == Err::<Self, ResolutionError>(ResolutionError::NoMatchingAddress),
    {
        let filtered = filter_addresses(&addrs, address_family);
        if filtered.len() == 0 {
            Err(ResolutionError::NoMatchingAddress)
        } else {
            Ok(TcpConnectionManager {
                addrs: filtered,
                addr_index_next: 0,
                lb_algorithm,
                max_requests,
            })
        }
    }

    /// The index the round-robin cursor moves to after one `Next` selection.
    pub open spec fn next_cursor_spec(self) -> usize {
        (((self.addr_index_next + 1) as int) % (self.addrs@.len() as int)) as usize
    }

    /// The address a deterministic strategy returns in the current state:
    /// the first address under `First`, the address under the cursor under
    /// `Next`. (For `Random` no state determines the selection; this value is
    /// not meaningful and nothing is claimed of it.)
    pub open spec fn selected_spec(self) -> SockAddr {
        match self.lb_algorithm {
            LoadBalancing::Next => self.addrs@[self.addr_index_next as int],
            _ => self.addrs@[0],
        }
    }

    /// The manager's state after one selection: only a `Next` selection
    /// changes anything, advancing the cursor by one with wraparound.
    pub open spec fn step_spec(self) -> Self {
        match self.lb_algorithm {
            LoadBalancing::Next => TcpConnectionManager {
                addr_index_next: self.next_cursor_spec(),
                ..self
            },
            _ => self,
        }
    }

    /// The manager's state after `n` selections.
    pub open spec fn step_n(self, n: nat) -> Self
        decreases n,
    {
        if n == 0 {
            self
        } else {
            self.step_n((n - 1) as nat).step_spec()
        }
    }

    /// The address the `(k+1)`-th selection returns (deterministic
    /// strategies), counting from the current state.
    pub open spec fn selection_at(self, k: nat) -> SockAddr {
        self.step_n(k).selected_spec()
    }

    /// Selects and returns a SockAddr using the configured `lb_algorithm`.
    ///
    /// `First` and `Random` leave the manager unchanged; `Next` returns the
    /// address under the cursor and advances the cursor by one, wrapping at
    /// the end of the set. Every strategy returns a member of the set.
    pub fn get_addr(&mut self) -> (r: SockAddr)
        requires
            old(self).wf(),
        ensures
            final(self).wf(),
            *final(self) == old(self).step_spec(),
            old(self).addrs@.contains(r),
            !(old(self).lb_algorithm is Random) ==> r == old(self).selected_spec(),
    {
        let lb = self.lb_algorithm;
        match lb {
            LoadBalancing::First => {
                let a = self.addrs[0];
                proof {
                    assert(old(self).addrs@.contains(a)) by {
                        assert(old(self).addrs@[0] == a);
                    }
                }
                a
            },
            LoadBalancing::Random => {
                let i = random_index(self.addrs.len());
                let a = self.addrs[i];
                proof {
                    assert(old(self).addrs@.contains(a)) by {
                        assert(old(self).addrs@[i as int] == a);
                    }
                }
                a
            },
            LoadBalancing::Next => {
                let n = self.addrs.len();
                let i = self.addr_index_next;
                self.addr_index_next = (i + 1) % n;
                let a = self.addrs[i];
                proof {
                    assert(old(self).addrs@.contains(a)) by {
                        assert(old(self).addrs@[i as int] == a);
                    }
                }
                a
            },
        }
    }

    /// Whether a connection already reused `recycle_count` times has worn out:
    /// one more use would reach or exceed the configured cap.
    pub open spec fn limit_reached_spec(self, recycle_count: nat) -> bool {
        recycle_count + 1 >= self.max_requests
    }

    /// Usage-limit check; performs no I/O and must precede any probe.
    pub fn limit_reached(&self, recycle_count: usize) -> (b: bool)
        ensures
            b == self.limit_reached_spec(recycle_count as nat),
    {
        if self.max_requests == 0 {
            true
        } else {
            recycle_count >= self.max_requests - 1
        }
    }

    /// The full recycle decision: a connection at its usage cap is retired
    /// with `LimitReached` whatever the probe said; otherwise the probe
    /// outcome decides.
    pub open spec fn recycle_spec(self, recycle_count: nat, probe: ProbeOutcome) -> Result<
        (),
        RecycleError,
    > {
        if self.limit_reached_spec(recycle_count) {
            Err(RecycleError::LimitReached)
        } else {
            probe_verdict_spec(probe)
        }
    }

    /// Decides whether a connection handed back to the pool may be reused.
    ///
    /// `recycle_count` is the number of times the connection was already
    /// reused; `probe` is what a non-blocking zero-length read on it
    /// reported. The usage-limit check comes first: when the cap is hit the
    /// verdict is `LimitReached` regardless of the probe. Otherwise the
    /// connection is kept unless the probe failed fatally, in which case the
    /// verdict carries the probe's error kind and the caller must observe the
    /// cooldown delay before returning it.
    pub fn recycle(&self, recycle_count: usize, probe: &ProbeOutcome) -> (r: Result<
        (),
        RecycleError,
    >)
        ensures
            r == self.recycle_spec(recycle_count as nat, *probe),
    {
        if self.limit_reached(recycle_count) {
            Err(RecycleError::LimitReached)
        } else {
            probe_verdict(probe)
        }
    }

    /// One selection preserves the invariant and changes nothing but the
    /// cursor.
    pub proof fn lemma_step_preserves(m: Self)
        requires
            m.wf(),
        ensures
            m.step_spec().wf(),
            m.step_spec().addrs == m.addrs,
            m.step_spec().lb_algorithm == m.lb_algorithm,
            m.step_spec().max_requests == m.max_requests,
    {
        if m.lb_algorithm is Next {
            lemma_mod_bound((m.addr_index_next + 1) as int, m.addrs@.len() as int);
        }
    }

    /// Any number of selections preserves the invariant and changes nothing
    /// but the cursor.
    pub proof fn lemma_step_n_preserves(m: Self, n: nat)
        requires
            m.wf(),
        ensures
            m.step_n(n).wf(),
            m.step_n(n).addrs == m.addrs,
            m.step_n(n).lb_algorithm == m.lb_algorithm,
            m.step_n(n).max_requests == m.max_requests,
        decreases n,
    {
        if n > 0 {
            Self::lemma_step_n_preserves(m, (n - 1) as nat);
            Self::lemma_step_preserves(m.step_n((n - 1) as nat));
        }
    }

    /// Under the `First` strategy a selection never changes the manager, and
    /// however many selections have already happened, the next one still
    /// returns the first address of the set.
    pub proof fn lemma_first_always_first(m: Self, n: nat)
        requires
            m.wf(),
            m.lb_algorithm is First,
        ensures
            m.step_n(n) == m,
            m.selection_at(n) == m.addrs@[0],
        decreases n,
    {
        if n > 0 {
            Self::lemma_first_always_first(m, (n - 1) as nat);
        }
    }

    /// After `k` selections under `Next`, the cursor sits `k` places past
    /// where it started, modulo the length of the address set.
    pub proof fn lemma_next_cursor(m: Self, k: nat)
        requires
            m.wf(),
            m.lb_algorithm is Next,
        ensures
            m.step_n(k).addr_index_next as int == (m.addr_index_next + k) % (
            m.addrs@.len() as int),
        decreases k,
    {
        let len = m.addrs@.len() as int;
        let c = m.addr_index_next as int;
        vstd::std_specs::vec::axiom_spec_len(&m.addrs);
        if k == 0 {
            lemma_small_mod(m.addr_index_next as nat, m.addrs@.len());
        } else {
            Self::lemma_next_cursor(m, (k - 1) as nat);
            Self::lemma_step_n_preserves(m, (k - 1) as nat);
            let p = m.step_n((k - 1) as nat);
            let d = p.addr_index_next as int;
            assert(m.step_n(k) == p.step_spec());
            lemma_add_mod_noop(c + k - 1, 1, len);
            lemma_mod_bound(d + 1, len);
            lemma_mod_bound(c + k, len);
            if len == 1 {
                assert(m.step_n(k).addr_index_next as int == (c + k) % len);
            } else {
                lemma_small_mod(1nat, m.addrs@.len());
                assert((d + 1) % len == (c + k) % len);
            }
        }
    }

    /// Round-robin law. From any well-formed state under `Next`:
    /// the `(k+1)`-th selection returns the address `k` places past the
    /// cursor, modulo the set length; after exactly one round of selections
    /// the manager is back in its starting state, so the next selection
    /// wraps to the address the first one returned; and one round of
    /// selections returns every address of the set exactly once — the
    /// multiset of returned addresses equals the multiset of the set.
    pub proof fn lemma_next_round_robin(m: Self)
        requires
            m.wf(),
            m.lb_algorithm is Next,
        ensures
            forall|k: nat|
                #![trigger m.selection_at(k)]
                m.selection_at(k) == m.addrs@[(m.addr_index_next + k) % (m.addrs@.len() as int)],
            m.step_n(m.addrs@.len()) == m,
            m.selection_at(m.addrs@.len()) == m.selection_at(0),
            Seq::new(m.addrs@.len(), |k: int| m.selection_at(k as nat)).to_multiset()
                == m.addrs@.to_multiset(),
    {
        broadcast use vstd::multiset::group_multiset_axioms;

        let len = m.addrs@.len() as int;
        let c = m.addr_index_next as int;
        assert forall|k: nat| #![trigger m.selection_at(k)]
            m.selection_at(k) == m.addrs@[(c + k) % len] by {
            Self::lemma_next_cursor(m, k);
            Self::lemma_step_n_preserves(m, k);
            lemma_mod_bound(c + k, len);
        }
        Self::lemma_next_cursor(m, m.addrs@.len());
        Self::lemma_step_n_preserves(m, m.addrs@.len());
        lemma_mod_multiples_vanish(1, c, len);
        lemma_small_mod(m.addr_index_next as nat, m.addrs@.len());
        assert(m.step_n(m.addrs@.len()).addr_index_next == m.addr_index_next);
        assert(m.step_n(m.addrs@.len()) == m);
        let sel = Seq::new(m.addrs@.len(), |k: int| m.selection_at(k as nat));
        let hi = m.addrs@.subrange(c, len);
        let lo = m.addrs@.subrange(0, c);
        assert forall|k: int| 0 <= k < len implies sel[k] == (hi + lo)[k] by {
            if k < len - c {
                lemma_small_mod((c + k) as nat, m.addrs@.len());
            } else {
                lemma_mod_multiples_vanish(1, c + k - len, len);
                lemma_small_mod((c + k - len) as nat, m.addrs@.len());
            }
        }
        assert(sel =~= hi + lo);
        assert(m.addrs@ =~= lo + hi);
        lemma_multiset_commutative(hi, lo);
        lemma_multiset_commutative(lo, hi);
        assert(hi.to_multiset().add(lo.to_multiset()) =~= lo.to_multiset().add(hi.to_multiset()));
    }

    /// The usage-limit check precedes the probe: once a connection's next
    /// use would reach the cap, the recycle verdict is `LimitReached`
    /// whatever the probe reported.
    pub proof fn lemma_limit_precedes_probe(m: Self, recycle_count: nat, probe: ProbeOutcome)
        requires
            m.limit_reached_spec(recycle_count),
        ensures
            m.recycle_spec(recycle_count, probe) == Err::<(), RecycleError>(
                RecycleError::LimitReached,
            ),
    {
    }

    /// A connection below the usage cap whose probe did not classify the
    /// socket as dead is kept.
    pub proof fn lemma_healthy_kept(m: Self, recycle_count: nat, probe: ProbeOutcome)
        requires
            !m.limit_reached_spec(recycle_count),
            !(classify_probe_spec(probe) is Dead),
        ensures
            m.recycle_spec(recycle_count, probe) == Ok::<(), RecycleError>(()),
    {
    }

    /// A connection below the usage cap whose probe failed fatally is
    /// discarded with the probe's error kind.
    pub proof fn lemma_dead_discarded(m: Self, recycle_count: nat, k: ProbeErrorKind)
        requires
            !m.limit_reached_spec(recycle_count),
            !(k is WouldBlock),
        ensures
            m.recycle_spec(recycle_count, ProbeOutcome::Failure(k)) == Err::<(), RecycleError>(
                RecycleError::ProbeFailed(k),
            ),
    {
    }
}

} // verus!
