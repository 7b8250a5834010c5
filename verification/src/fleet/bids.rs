//! Bids: the claims that a fleet stakes on the spot market.

use crate::text::same_text;
use vstd::prelude::*;

verus! {

/// Where a bid stands in its life.
#[derive(Clone, Copy, PartialEq, Eq, Debug, Structural)]
pub enum BidState {
    Open,
    Active,
    Fulfilled,
    Cancelled,
    Failed,
}

/// The state that a provider's word for it stands for. A bid whose state has
/// no name here has left the open state and offers nothing further: it counts
/// as failed.
pub open spec fn state_named(name: Seq<char>) -> BidState {
    if name == "open"@ {
        BidState::Open
    } else if name == "active"@ {
        BidState::Active
    } else if name == "fulfilled"@ || name == "closed"@ {
        BidState::Fulfilled
    } else if name == "cancelled"@ {
        BidState::Cancelled
    } else {
        BidState::Failed
    }
}

impl BidState {
    /// A bid in a terminal state is of no further concern to the provider.
    pub open spec fn terminal(self) -> bool {
        self is Cancelled || self is Failed
    }

    pub fn is_terminal(self) -> (out: bool)
        ensures
            out == self.terminal(),
    {
        match self {
            BidState::Cancelled | BidState::Failed => true,
            _ => false,
        }
    }

    pub fn named(name: &str) -> (out: BidState)
        ensures
            out == state_named(name@),
    {
        if same_text(name, "open") {
            BidState::Open
        } else if same_text(name, "active") {
            BidState::Active
        } else if same_text(name, "fulfilled") || same_text(name, "closed") {
            BidState::Fulfilled
        } else if same_text(name, "cancelled") {
            BidState::Cancelled
        } else {
            BidState::Failed
        }
    }
}

/// A bid placed for a group of the fleet.
#[derive(Clone, PartialEq, Eq, Debug)]
pub struct BidRequest {
    pub id: String,
    /// The owning group, by its position in the fleet's description.
    pub group: usize,
    pub state: BidState,
}

/// What the provider says of one bid.
#[derive(Clone, PartialEq, Eq, Debug)]
pub struct BidDescription {
    pub bid_id: String,
    pub state: BidState,
    pub instance_ids: Vec<String>,
}

/// The state that a record names, or does not name: a record without a
/// state names none that is known.
pub open spec fn state_recorded(state: Option<String>) -> BidState {
    match state {
        Some(name) => state_named(name@),
        None => BidState::Failed,
    }
}

/// The instances that a record lists: the one it names, if it names one.
pub open spec fn listed(instance_id: Option<String>) -> Seq<String> {
    match instance_id {
        Some(id) => seq![id],
        None => Seq::empty(),
    }
}

impl BidDescription {
    /// What a provider's record of a bid says, if it says which bid it is of.
    pub fn of(bid_id: Option<String>, state: Option<String>, instance_id: Option<String>) -> (out:
        Option<BidDescription>)
        ensures
            match out {
                Some(desc) => {
                    &&& bid_id == Some(desc.bid_id)
                    &&& desc.state == state_recorded(state)
                    &&& desc.instance_ids@ == listed(instance_id)
                },
                None => bid_id is None,
            },
    {
        match bid_id {
            Some(bid_id) => {
                let state = match &state {
                    Some(name) => BidState::named(name.as_str()),
                    None => BidState::Failed,
                };
                let mut instance_ids: Vec<String> = Vec::new();
                match instance_id {
                    Some(id) => {
                        instance_ids.push(id);
                    },
                    None => {},
                }
                assert(instance_ids@ =~= listed(instance_id));
                Some(BidDescription { bid_id, state, instance_ids })
            },
            None => None,
        }
    }
}

/// What is asked of the provider for one group: this many machines of this
/// shape, for at most this long.
#[derive(Clone, PartialEq, Eq, Debug)]
pub struct BidOrder {
    pub group: String,
    pub ami: String,
    pub instance_type: String,
    pub count: u32,
    pub duration_minutes: i64,
}

/// No two orders are for groups of the same name.
pub open spec fn distinct_groups(orders: Seq<BidOrder>) -> bool {
    forall|g: int, h: int|
        0 <= g < h < orders.len() ==> (#[trigger] orders[g]).group@ != (#[trigger] orders[h]).group@
}

/// An instance allocated against a bid.
#[derive(Clone, PartialEq, Eq, Debug)]
pub struct Instance {
    pub id: String,
    /// The owning group, by its position in the fleet's description.
    pub group: usize,
}

/// Open bids for `group`, one for each of `ids`.
pub open spec fn bids_for(ids: Seq<String>, group: usize) -> Seq<BidRequest> {
    Seq::new(ids.len(), |i: int| BidRequest { id: ids[i], group, state: BidState::Open })
}

/// The bids that the submissions for the first `upto` groups have placed.
/// `results[g]` holds the identifiers that the provider gave for group `g`,
/// or nothing where it refused the submission.
pub open spec fn placed(results: Seq<Option<Vec<String>>>, upto: int) -> Seq<BidRequest>
    decreases upto,
{
    if upto <= 0 {
        Seq::empty()
    } else {
        placed(results, upto - 1) + match results[upto - 1] {
            Some(ids) => bids_for(ids@, (upto - 1) as usize),
            None => Seq::empty(),
        }
    }
}

/// Every one of `groups` groups has obtained at least one bid.
pub open spec fn admitted(results: Seq<Option<Vec<String>>>, groups: int) -> bool {
    &&& results.len() == groups
    &&& forall|g: int|
        0 <= g < groups ==> match #[trigger] results[g] {
            Some(ids) => ids@.len() > 0,
            None => false,
        }
}

/// The bids that the submissions have placed, for at most `groups` groups.
pub fn place(results: &Vec<Option<Vec<String>>>, groups: usize) -> (out: Vec<BidRequest>)
    ensures
        out@ == placed(
            results@,
            if results.len() <= groups {
                results.len() as int
            } else {
                groups as int
            },
        ),
{
    let upto = if results.len() <= groups {
        results.len()
    } else {
        groups
    };
    let mut out: Vec<BidRequest> = Vec::new();
    let mut g: usize = 0;
    while g < upto
        invariant
            g <= upto <= results.len(),
            out@ == placed(results@, g as int),
        decreases upto - g,
    {
        match &results[g] {
            Some(ids) => {
                let mut at: usize = 0;
                while at < ids.len()
                    invariant
                        at <= ids.len(),
                        g < upto <= results.len(),
                        results@[g as int] == Some(*ids),
                        out@ == placed(results@, g as int) + bids_for(ids@, g).take(at as int),
                    decreases ids.len() - at,
                {
                    out.push(BidRequest { id: ids[at].clone(), group: g, state: BidState::Open });
                    assert(bids_for(ids@, g).take(at + 1) == bids_for(ids@, g).take(
                        at as int,
                    ).push(bids_for(ids@, g)[at as int]));
                    at += 1;
                }
                assert(bids_for(ids@, g).take(at as int) == bids_for(ids@, g));
            },
            None => {},
        }
        g += 1;
    }
    out
}

/// Whether every one of `groups` groups has obtained at least one bid.
pub fn is_admitted(results: &Vec<Option<Vec<String>>>, groups: usize) -> (out: bool)
    ensures
        out == admitted(results@, groups as int),
{
    if results.len() != groups {
        return false;
    }
    let mut g: usize = 0;
    while g < groups
        invariant
            g <= groups == results.len(),
            forall|h: int|
                0 <= h < g ==> match #[trigger] results[h] {
                    Some(ids) => ids@.len() > 0,
                    None => false,
                },
        decreases groups - g,
    {
        match &results[g] {
            Some(ids) => {
                if ids.len() == 0 {
                    return false;
                }
            },
            None => {
                return false;
            },
        }
        g += 1;
    }
    true
}

/// What the last of `descs` that speaks of the bid `id` says of its state.
pub open spec fn reported_state(descs: Seq<BidDescription>, id: Seq<char>) -> Option<BidState>
    decreases descs.len(),
{
    if descs.len() == 0 {
        None
    } else if descs.last().bid_id@ == id {
        Some(descs.last().state)
    } else {
        reported_state(descs.drop_last(), id)
    }
}

/// The bid `bid` once `descs` has been heard: its state is the reported one,
/// or unchanged where `descs` is silent about it.
pub open spec fn heard(bid: BidRequest, descs: Seq<BidDescription>) -> BidRequest {
    BidRequest {
        id: bid.id,
        group: bid.group,
        state: match reported_state(descs, bid.id@) {
            Some(state) => state,
            None => bid.state,
        },
    }
}

/// The bids once `descs` has been heard.
pub open spec fn absorbed(bids: Seq<BidRequest>, descs: Seq<BidDescription>) -> Seq<BidRequest> {
    Seq::new(bids.len(), |i: int| heard(bids[i], descs))
}

/// Some bid is still open.
pub open spec fn any_open(bids: Seq<BidRequest>) -> bool {
    exists|i: int| 0 <= i < bids.len() && (#[trigger] bids[i]).state is Open
}

/// The state of the bid `id` as the last of `descs` that names it reports it.
pub fn state_reported(descs: &Vec<BidDescription>, id: &String) -> (out: Option<BidState>)
    ensures
        out == reported_state(descs@, id@),
{
    let mut out: Option<BidState> = None;
    let mut at: usize = 0;
    while at < descs.len()
        invariant
            at <= descs.len(),
            out == reported_state(descs@.take(at as int), id@),
        decreases descs.len() - at,
    {
        assert(descs@.take(at + 1).drop_last() == descs@.take(at as int));
        if descs[at].bid_id == *id {
            out = Some(descs[at].state);
        }
        at += 1;
    }
    assert(descs@.take(at as int) == descs@);
    out
}

/// Brings the states of `bids` up to date with what `descs` reports.
pub fn absorb(bids: &Vec<BidRequest>, descs: &Vec<BidDescription>) -> (out: Vec<BidRequest>)
    ensures
        out@ == absorbed(bids@, descs@),
{
    let mut out: Vec<BidRequest> = Vec::new();
    let mut at: usize = 0;
    while at < bids.len()
        invariant
            at <= bids.len(),
            out.len() == at,
            forall|i: int| 0 <= i < at ==> out[i] == heard(bids[i], descs@),
        decreases bids.len() - at,
    {
        let state = match state_reported(descs, &bids[at].id) {
            Some(state) => state,
            None => bids[at].state,
        };
        out.push(BidRequest { id: bids[at].id.clone(), group: bids[at].group, state });
        at += 1;
    }
    assert(out@ =~= absorbed(bids@, descs@));
    out
}

/// Whether a bid is still open.
pub fn has_open(bids: &Vec<BidRequest>) -> (out: bool)
    ensures
        out == any_open(bids@),
{
    let mut at: usize = 0;
    while at < bids.len()
        invariant
            at <= bids.len(),
            forall|i: int| 0 <= i < at ==> !(bids[i].state is Open),
        decreases bids.len() - at,
    {
        match bids[at].state {
            BidState::Open => {
                return true;
            },
            _ => {},
        }
        at += 1;
    }
    false
}

/// The identifiers of the bids that are not in a terminal state, in order.
pub open spec fn live_ids(bids: Seq<BidRequest>) -> Seq<String>
    decreases bids.len(),
{
    if bids.len() == 0 {
        Seq::empty()
    } else if bids.last().state.terminal() {
        live_ids(bids.drop_last())
    } else {
        live_ids(bids.drop_last()).push(bids.last().id)
    }
}

/// The bid `bid` after a cancellation: cancelled, unless it was in a terminal
/// state already.
pub open spec fn called_off(bid: BidRequest) -> BidRequest {
    if bid.state.terminal() {
        bid
    } else {
        BidRequest { id: bid.id, group: bid.group, state: BidState::Cancelled }
    }
}

/// The bids after a cancellation.
pub open spec fn all_called_off(bids: Seq<BidRequest>) -> Seq<BidRequest> {
    Seq::new(bids.len(), |i: int| called_off(bids[i]))
}

/// The identifiers of the bids that a cancellation has to name.
pub fn live_bid_ids(bids: &Vec<BidRequest>) -> (out: Vec<String>)
    ensures
        out@ == live_ids(bids@),
{
    let mut out: Vec<String> = Vec::new();
    let mut at: usize = 0;
    while at < bids.len()
        invariant
            at <= bids.len(),
            out@ == live_ids(bids@.take(at as int)),
        decreases bids.len() - at,
    {
        assert(bids@.take(at + 1).drop_last() == bids@.take(at as int));
        if !bids[at].state.is_terminal() {
            out.push(bids[at].id.clone());
        }
        at += 1;
    }
    assert(bids@.take(at as int) == bids@);
    out
}

/// Marks every bid that is not in a terminal state as cancelled.
pub fn cancel(bids: &Vec<BidRequest>) -> (out: Vec<BidRequest>)
    ensures
        out@ == all_called_off(bids@),
{
    let mut out: Vec<BidRequest> = Vec::new();
    let mut at: usize = 0;
    while at < bids.len()
        invariant
            at <= bids.len(),
            out.len() == at,
            forall|i: int| 0 <= i < at ==> out[i] == called_off(bids[i]),
        decreases bids.len() - at,
    {
        let state = if bids[at].state.is_terminal() {
            bids[at].state
        } else {
            BidState::Cancelled
        };
        out.push(BidRequest { id: bids[at].id.clone(), group: bids[at].group, state });
        at += 1;
    }
    assert(out@ =~= all_called_off(bids@));
    out
}

/// A cancellation leaves no bid for a second one to name, and a second one
/// changes nothing.
pub proof fn lemma_cancel_is_idempotent(bids: Seq<BidRequest>)
    ensures
        live_ids(all_called_off(bids)) == Seq::<String>::empty(),
        all_called_off(all_called_off(bids)) == all_called_off(bids),
    decreases bids.len(),
{
    let once = all_called_off(bids);
    assert(all_called_off(once) =~= once);
    if bids.len() > 0 {
        lemma_cancel_is_idempotent(bids.drop_last());
        assert(once.drop_last() =~= all_called_off(bids.drop_last()));
    }
}

} // verus!
