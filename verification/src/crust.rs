//! The tensegrity crust's topology: which regime the five-tether network is
//! in, and how shocks and recovery move it between regimes.
//!
//! The tension physics is floating-point work done by the caller; what it
//! hands over is, per tether, whether the tether yielded (is capped at its
//! plateau), and whether the total remaining tension has fallen below the
//! two recovery thresholds. From those facts the regime is decided here.
use vstd::prelude::*;

verus! {

/// The five crust nodes, each mapped to one of the fields 4-8 of the state.
pub const CRUST_NODE_NAMES: [&'static str; 5] = [
    "coherence",
    "entropy",
    "composition",
    "resonance",
    "ozone_buffer",
];

/// Number of tethers in the crust.
pub const TETHER_COUNT: usize = 5;

/// The tether network state (field 9 of the state, `domain_wall`).
#[derive(Debug, Clone, Copy, PartialEq, Eq, Structural)]
pub enum TetherNetwork {
    /// All five tethers connected; equilibrium holds.
    Connected,
    /// Some nodes yielded but still contribute tension.
    Strained { pulled_nodes: u8, slack_nodes: u8 },
    /// Topology ruptured; a remap of the node angles is under way.
    Ruptured { pending_remap: bool },
    /// All nodes decoupled; the core is exposed.
    Severed,
}

/// How many of the five tethers yielded.
pub open spec fn capped_count(capping: [bool; 5]) -> nat {
    (if capping@[0] { 1nat } else { 0nat }) + (if capping@[1] { 1nat } else { 0nat }) + (
    if capping@[2] {
        1nat
    } else {
        0nat
    }) + (if capping@[3] { 1nat } else { 0nat }) + (if capping@[4] { 1nat } else { 0nat })
}

/// The regime after a shock that the network absorbed without rupture:
/// `Strained` with the pulled and yielded node counts when any tether
/// yielded, else `Connected`.
pub open spec fn absorbed_regime(capping: [bool; 5]) -> TetherNetwork {
    if capped_count(capping) > 0 {
        TetherNetwork::Strained {
            pulled_nodes: (5 - capped_count(capping)) as u8,
            slack_nodes: capped_count(capping) as u8,
        }
    } else {
        TetherNetwork::Connected
    }
}

/// The regime after a recovery step. A strained network whose total tension
/// fell below the settling threshold reconnects; a ruptured network with a
/// pending remap whose total tension fell below the remap threshold becomes
/// strained with all five nodes pulled and none slack.
pub open spec fn restored_regime(
    state: TetherNetwork,
    below_settle: bool,
    below_remap: bool,
) -> TetherNetwork {
    match state {
        TetherNetwork::Strained { .. } => if below_settle {
            TetherNetwork::Connected
        } else {
            state
        },
        TetherNetwork::Ruptured { pending_remap } => if below_remap && pending_remap {
            TetherNetwork::Strained { pulled_nodes: 5, slack_nodes: 0 }
        } else {
            state
        },
        _ => state,
    }
}

impl TetherNetwork {
    /// The regime of a network that absorbed a shock within its capacity,
    /// given which tethers yielded.
    pub fn after_absorb(capping: [bool; 5]) -> (r: TetherNetwork)
        ensures
            r == absorbed_regime(capping),
    {
        let mut capped: u8 = 0;
        let mut i: usize = 0;
        while i < TETHER_COUNT
            invariant
                i <= 5,
                capped <= i,
                capped as nat == capped_count_prefix(capping, i as int),
            decreases 5 - i,
        {
            if capping[i] {
                capped = capped + 1;
            }
            i = i + 1;
        }
        proof {
            lemma_prefix_is_count(capping);
        }
        if capped > 0 {
            TetherNetwork::Strained { pulled_nodes: 5 - capped, slack_nodes: capped }
        } else {
            TetherNetwork::Connected
        }
    }

    /// The regime after one recovery step, given whether the total tension
    /// fell below the settling and remap thresholds.
    pub fn after_restore(self, below_settle: bool, below_remap: bool) -> (r: TetherNetwork)
        ensures
            r == restored_regime(self, below_settle, below_remap),
    {
        match self {
            TetherNetwork::Strained { .. } => if below_settle {
                TetherNetwork::Connected
            } else {
                self
            },
            TetherNetwork::Ruptured { pending_remap } => if below_remap && pending_remap {
                TetherNetwork::Strained { pulled_nodes: 5, slack_nodes: 0 }
            } else {
                self
            },
            _ => self,
        }
    }

    /// The core is exposed when the network is severed or ruptured, or when
    /// every tether is slack.
    pub fn exposes_core(&self, all_slack: bool) -> (r: bool)
        ensures
            r == (*self is Severed || *self is Ruptured || all_slack),
    {
        match self {
            TetherNetwork::Severed => true,
            TetherNetwork::Ruptured { .. } => true,
            _ => all_slack,
        }
    }
}

/// How many of the first `n` tethers yielded.
pub open spec fn capped_count_prefix(capping: [bool; 5], n: int) -> nat
    decreases n,
{
    if n <= 0 {
        0
    } else {
        capped_count_prefix(capping, n - 1) + (if capping@[n - 1] {
            1nat
        } else {
            0nat
        })
    }
}

proof fn lemma_prefix_is_count(capping: [bool; 5])
    ensures
        capped_count_prefix(capping, 5) == capped_count(capping),
{
    reveal_with_fuel(capped_count_prefix, 6);
}

/// A network that absorbed a shock is never ruptured or severed, and its
/// pulled and slack counts cover all five tethers; it is `Connected` exactly
/// when no tether yielded.
pub proof fn law_absorb_keeps_topology(capping: [bool; 5])
    ensures
        !(absorbed_regime(capping) is Ruptured),
        !(absorbed_regime(capping) is Severed),
        absorbed_regime(capping) is Connected <==> capped_count(capping) == 0,
        absorbed_regime(capping) matches TetherNetwork::Strained { pulled_nodes, slack_nodes }
            ==> pulled_nodes + slack_nodes == 5 && slack_nodes > 0,
{
}

/// Recovery never breaks the network further: a connected network stays
/// connected, a severed one stays severed, and no step leads into a rupture.
pub proof fn law_restore_never_degrades(
    state: TetherNetwork,
    below_settle: bool,
    below_remap: bool,
)
    ensures
        state is Connected ==> restored_regime(state, below_settle, below_remap) is Connected,
        state is Severed ==> restored_regime(state, below_settle, below_remap) is Severed,
        restored_regime(state, below_settle, below_remap) is Ruptured ==> state is Ruptured,
{
}

/// A strained network whose total tension fell below the settling threshold
/// reconnects, whatever the remap threshold says; above the settling
/// threshold it stays as it was. A ruptured network is remapped (strained,
/// all five nodes pulled) exactly when its remap is pending and the tension
/// fell below the remap threshold.
pub proof fn law_restore_settles_strain(pulled: u8, slack: u8, below_settle: bool, below_remap: bool)
    ensures
        below_settle ==> restored_regime(
            (TetherNetwork::Strained { pulled_nodes: pulled, slack_nodes: slack }),
            below_settle,
            below_remap,
        ) is Connected,
        !below_settle ==> restored_regime(
            (TetherNetwork::Strained { pulled_nodes: pulled, slack_nodes: slack }),
            below_settle,
            below_remap,
        ) == (TetherNetwork::Strained { pulled_nodes: pulled, slack_nodes: slack }),
        below_remap ==> restored_regime(
            (TetherNetwork::Ruptured { pending_remap: true }),
            below_settle,
            below_remap,
        ) == (TetherNetwork::Strained { pulled_nodes: 5, slack_nodes: 0 }),
        !below_remap ==> restored_regime(
            (TetherNetwork::Ruptured { pending_remap: true }),
            below_settle,
            below_remap,
        ) == (TetherNetwork::Ruptured { pending_remap: true }),
        restored_regime((TetherNetwork::Ruptured { pending_remap: false }), below_settle, below_remap)
            == (TetherNetwork::Ruptured { pending_remap: false }),
{
}

} // verus!
