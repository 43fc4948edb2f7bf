//! The civilization layer's rules on integers and text: amendment
//! procedures, proposal validation and scheduling, stake-weighted vote
//! counting and the majority rule. Value-function weights and reputations
//! are fractions and are kept by the caller.
use vstd::prelude::*;

verus! {

/// Parameters of a representative democracy.
#[derive(Debug, Clone, Copy, PartialEq, Eq, Structural)]
pub struct DemocracyParams {
    pub min_stake: u64,
    /// Seconds.
    pub voting_period: u64,
    pub quorum_percentage: u8,
    pub acceptance_threshold: u8,
}

/// Parameters of a liquid democracy.
#[derive(Debug, Clone, Copy, PartialEq, Eq, Structural)]
pub struct LiquidDemocracyParams {
    pub delegation_depth: u8,
    pub min_delegation_stake: u64,
    /// Seconds.
    pub voting_period: u64,
}

/// A step of an amendment procedure.
#[derive(Debug, Clone, Copy, PartialEq, Eq, Structural)]
pub enum AmendmentStep {
    Proposal,
    Discussion,
    Voting,
    Ratification,
}

/// How deep a constitutional change goes.
#[derive(Debug, Clone, Copy, PartialEq, Eq, Structural, Hash)]
pub enum ChangeType {
    Minor,
    Major,
    Fundamental,
}

/// How the constitution is amended: its steps, and the majority (a
/// percentage) each kind of change needs.
#[derive(Debug)]
pub struct AmendmentProcedure {
    pub name: String,
    pub description: String,
    pub steps: Vec<AmendmentStep>,
    pub majority_requirements: Vec<(ChangeType, u8)>,
}

/// The majority the first requirement for `c` names, if any.
pub open spec fn requirement_for(reqs: Seq<(ChangeType, u8)>, c: ChangeType) -> Option<u8>
    decreases reqs.len(),
{
    if reqs.len() == 0 {
        None
    } else if reqs[0].0 == c {
        Some(reqs[0].1)
    } else {
        requirement_for(reqs.drop_first(), c)
    }
}

impl AmendmentProcedure {
    /// The majority a change of kind `c` needs (see `requirement_for`).
    pub fn required_majority(&self, c: ChangeType) -> (r: Option<u8>)
        ensures
            r == requirement_for(self.majority_requirements@, c),
    {
        let reqs = &self.majority_requirements;
        let mut i: usize = 0;
        assert(reqs@.skip(0) =~= reqs@);
        while i < reqs.len()
            invariant
                i <= reqs@.len(),
                reqs@ == self.majority_requirements@,
                requirement_for(reqs@, c) == requirement_for(reqs@.skip(i as int), c),
            decreases reqs@.len() - i,
        {
            assert(reqs@.skip(i as int).drop_first() =~= reqs@.skip(i + 1));
            assert(reqs@.skip(i as int)[0] == reqs@[i as int]);
            let (kind, majority) = reqs[i];
            if kind == c {
                assert(requirement_for(reqs@.skip(i as int), c) == Some(majority));
                return Some(majority);
            }
            i = i + 1;
        }
        None
    }
}

/// The standard amendment procedure: proposal, discussion, voting and
/// ratification; 51% for a minor change, 67% for a major one and 75% for a
/// fundamental one.
pub fn standard_amendment_procedure() -> (p: AmendmentProcedure)
    ensures
        p.name@ == "Standard Amendment"@,
        p.description@ == "Standard procedure for constitutional changes"@,
        p.steps@ == seq![AmendmentStep::Proposal, AmendmentStep::Discussion, AmendmentStep::Voting, AmendmentStep::Ratification],
        requirement_for(p.majority_requirements@, ChangeType::Minor) == Some(51u8),
        requirement_for(p.majority_requirements@, ChangeType::Major) == Some(67u8),
        requirement_for(p.majority_requirements@, ChangeType::Fundamental) == Some(75u8),
        p.majority_requirements@.len() == 3,
{
    let mut steps: Vec<AmendmentStep> = Vec::new();
    steps.push(AmendmentStep::Proposal);
    steps.push(AmendmentStep::Discussion);
    steps.push(AmendmentStep::Voting);
    steps.push(AmendmentStep::Ratification);
    let mut reqs: Vec<(ChangeType, u8)> = Vec::new();
    reqs.push((ChangeType::Minor, 51));
    reqs.push((ChangeType::Major, 67));
    reqs.push((ChangeType::Fundamental, 75));
    let p = AmendmentProcedure {
        name: String::from_str("Standard Amendment"),
        description: String::from_str("Standard procedure for constitutional changes"),
        steps,
        majority_requirements: reqs,
    };
    assert(p.steps@ =~= seq![AmendmentStep::Proposal, AmendmentStep::Discussion, AmendmentStep::Voting, AmendmentStep::Ratification]);
    proof {
        reveal_with_fuel(requirement_for, 4);
    }
    assert(p.majority_requirements@.drop_first()[0] == (ChangeType::Major, 67u8));
    assert(p.majority_requirements@.drop_first().drop_first()[0] == (ChangeType::Fundamental, 75u8));
    p
}

/// The principles of the default constitution: decentralization,
/// transparency, fairness and sustainability.
pub fn default_principles() -> (r: Vec<String>)
    ensures
        r@.len() == 4,
        r@[0]@ == "Decentralization"@,
        r@[1]@ == "Transparency"@,
        r@[2]@ == "Fairness"@,
        r@[3]@ == "Sustainability"@,
{
    let mut r: Vec<String> = Vec::new();
    r.push(String::from_str("Decentralization"));
    r.push(String::from_str("Transparency"));
    r.push(String::from_str("Fairness"));
    r.push(String::from_str("Sustainability"));
    r
}

/// The version of the default constitution, "1.0.0".
pub fn default_constitution_version() -> (r: String)
    ensures
        r@ == "1.0.0"@,
{
    String::from_str("1.0.0")
}

/// The minimum stake to propose (1000), to vote (10) and the proposal
/// cooldown in seconds (a day) of a new civilization layer.
pub fn default_governance_limits() -> (r: (u64, u64, u64))
    ensures
        r == (1000u64, 10u64, 86_400u64),
{
    (1000, 10, 86_400)
}

/// Where a proposal stands.
#[derive(Debug, Clone, Copy, PartialEq, Eq, Structural)]
pub enum ProposalStatus {
    Submitted,
    Discussion,
    Voting,
    Approved,
    Rejected,
    Withdrawn,
}

/// A vote.
#[derive(Debug, Clone, Copy, PartialEq, Eq, Structural)]
pub enum VoteType {
    Yes,
    No,
    Abstain,
}

/// Stake-weighted vote counts.
#[derive(Debug, Clone, Copy, PartialEq, Eq, Structural)]
pub struct VoteCounts {
    pub yes: u64,
    pub no: u64,
    pub abstain: u64,
    pub total: u64,
}

/// The counts after a vote of `stake` for `vote`.
pub open spec fn counted(c: VoteCounts, vote: VoteType, stake: u64) -> VoteCounts {
    VoteCounts {
        yes: if vote == VoteType::Yes { (c.yes + stake) as u64 } else { c.yes },
        no: if vote == VoteType::No { (c.no + stake) as u64 } else { c.no },
        abstain: if vote == VoteType::Abstain { (c.abstain + stake) as u64 } else { c.abstain },
        total: (c.total + stake) as u64,
    }
}

/// Whether a vote of `stake` for `vote` can be counted within 64 bits.
pub open spec fn vote_fits(c: VoteCounts, vote: VoteType, stake: u64) -> bool {
    &&& c.total + stake <= u64::MAX
    &&& vote == VoteType::Yes ==> c.yes + stake <= u64::MAX
    &&& vote == VoteType::No ==> c.no + stake <= u64::MAX
    &&& vote == VoteType::Abstain ==> c.abstain + stake <= u64::MAX
}

/// Whether counts pass: some stake voted and more than half of it voted yes.
pub open spec fn majority_yes(c: VoteCounts) -> bool {
    c.total > 0 && 2 * c.yes > c.total
}

impl VoteCounts {
    /// No votes.
    pub fn new() -> (c: Self)
        ensures
            c == (VoteCounts { yes: 0, no: 0, abstain: 0, total: 0 }),
    {
        VoteCounts { yes: 0, no: 0, abstain: 0, total: 0 }
    }

    /// Counts a vote of `stake` for `vote` on a proposal with status
    /// `status`: only a proposal in its voting phase takes votes ("Proposal
    /// is not in voting phase").
    pub fn cast(&mut self, status: ProposalStatus, vote: VoteType, stake: u64) -> (r: Result<(), String>)
        requires
            status == ProposalStatus::Voting ==> vote_fits(*old(self), vote, stake),
        ensures
            status == ProposalStatus::Voting ==> r is Ok && *final(self) == counted(*old(self), vote, stake),
            status != ProposalStatus::Voting ==> (r matches Err(e) && e@ == "Proposal is not in voting phase"@
                && *final(self) == *old(self)),
    {
        if status != ProposalStatus::Voting {
            return Err(String::from_str("Proposal is not in voting phase"));
        }
        match vote {
            VoteType::Yes => self.yes = self.yes + stake,
            VoteType::No => self.no = self.no + stake,
            VoteType::Abstain => self.abstain = self.abstain + stake,
        }
        self.total = self.total + stake;
        Ok(())
    }

    /// Whether the proposal passes: some stake voted and the yes votes are
    /// more than half of it (see `majority_yes`).
    pub fn passes(&self) -> (r: bool)
        ensures
            r == majority_yes(*self),
    {
        if self.total == 0 {
            return false;
        }
        let yes: u128 = self.yes as u128;
        let total: u128 = self.total as u128;
        2 * yes > total
    }
}

/// Checks a new proposal: it needs an author ("Proposal must have an
/// author"), then a title ("Proposal must have a title").
pub fn validate_proposal(author: &str, title: &str) -> (r: Result<(), String>)
    ensures
        author@.len() == 0 ==> (r matches Err(e) && e@ == "Proposal must have an author"@),
        author@.len() > 0 && title@.len() == 0 ==> (r matches Err(e) && e@ == "Proposal must have a title"@),
        author@.len() > 0 && title@.len() > 0 ==> r is Ok,
{
    if author.unicode_len() == 0 {
        return Err(String::from_str("Proposal must have an author"));
    }
    if title.unicode_len() == 0 {
        return Err(String::from_str("Proposal must have a title"));
    }
    Ok(())
}

/// Seconds in a day.
pub const DAY_SECS: i64 = 86_400;

/// When voting on a proposal submitted at `now` (seconds) starts and ends:
/// a day later and a week later.
pub fn voting_schedule(now: i64) -> (r: (i64, i64))
    requires
        now <= i64::MAX - 7 * DAY_SECS,
    ensures
        r.0 == now + DAY_SECS,
        r.1 == now + 7 * DAY_SECS,
{
    (now + DAY_SECS, now + 7 * DAY_SECS)
}

/// Whether a proposal whose voting ends at `ends_at` is due for processing
/// at `now`.
pub fn voting_ended(ends_at: i64, now: i64) -> (r: bool)
    ensures
        r == (now >= ends_at),
{
    now >= ends_at
}

/// The positions of the named items that stay when the item named `name`
/// is replaced or removed: those with another name, in order.
pub open spec fn kept_positions(names: Seq<Seq<char>>, name: Seq<char>) -> Seq<usize>
    decreases names.len(),
{
    if names.len() == 0 {
        Seq::empty()
    } else {
        let rest = kept_positions(names.drop_last(), name);
        if names.last() != name {
            rest.push((names.len() - 1) as usize)
        } else {
            rest
        }
    }
}

/// The positions, in order, of the items (given by their names) that are
/// not named `name`: what stays of a list of value functions when the one
/// named `name` is removed, or before its replacement is appended.
pub fn positions_without(names: &Vec<String>, name: &str) -> (r: Vec<usize>)
    ensures
        r@ == kept_positions(names@.map_values(|s: String| s@), name@),
        forall|k: int| 0 <= k < r@.len() ==> r@[k] < names@.len() && names@[r@[k] as int]@ != name@,
{
    let ghost ns = names@.map_values(|s: String| s@);
    let mut out: Vec<usize> = Vec::new();
    let mut i: usize = 0;
    while i < names.len()
        invariant
            i <= names@.len(),
            ns == names@.map_values(|s: String| s@),
            out@ == kept_positions(ns.take(i as int), name@),
            forall|k: int| 0 <= k < out@.len() ==> out@[k] < i && names@[out@[k] as int]@ != name@,
        decreases names@.len() - i,
    {
        assert(ns.take(i + 1).drop_last() =~= ns.take(i as int));
        assert(ns.take(i + 1).last() == names@[i as int]@);
        if !crate::text::str_eq(names[i].as_str(), name) {
            out.push(i);
        }
        i = i + 1;
    }
    assert(ns.take(i as int) =~= ns);
    out
}

} // verus!
