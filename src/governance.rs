use vstd::prelude::*;
use crate::book::Book;
use crate::encoding::{
    loan_id_preimage, loan_proposal_preimage, parameter_id_preimage, parameter_proposal_preimage,
    same_id, sha256, sha256_of, trade_id_preimage, trade_proposal_preimage,
};
use crate::types::{
    Address, CommitteeMember, Error, GovernanceProposal, LoanProposal, ProposalId, ProposalStatus,
    ProtocolParameter, TradeParams, REQUIRED_COMMITTEE_APPROVALS, TOTAL_COMMITTEE_SIZE,
};
use crate::yield_token::YieldToken;

verus! {

/// Length of a governance vote, in seconds (seven days).
pub const VOTING_PERIOD: u64 = 7 * 24 * 60 * 60;

/// A permanent mark that `voter` approved, or voted on, `proposal`.
#[derive(Clone, Copy, Debug, PartialEq, Eq)]
pub struct Mark {
    pub proposal: ProposalId,
    pub voter: Address,
}

pub open spec fn is_member(committee: Seq<CommitteeMember>, a: Address) -> bool {
    exists|i: int| 0 <= i < committee.len() && #[trigger] committee[i].address == a
}

pub open spec fn has_mark(marks: Seq<Mark>, id: Seq<u8>, voter: Address) -> bool {
    exists|i: int| 0 <= i < marks.len() && #[trigger] marks[i].proposal@ == id && marks[i].voter == voter
}

/// The tag of a protocol parameter, in declaration order.
pub open spec fn parameter_tag(p: ProtocolParameter) -> u32 {
    match p {
        ProtocolParameter::MinimumLockPeriod => 0,
        ProtocolParameter::MaximumYieldRate => 1,
        ProtocolParameter::CollateralRatio => 2,
        ProtocolParameter::ProtocolFeeRate => 3,
        ProtocolParameter::EmergencyWithdrawFee => 4,
    }
}

/// A new loan proposal.
pub open spec fn new_loan(
    id: ProposalId,
    borrower: Address,
    amount: u128,
    collateral: Address,
    interest_rate: u128,
    duration: u64,
    now: u64,
) -> LoanProposal {
    LoanProposal {
        id,
        borrower,
        amount,
        collateral,
        interest_rate,
        duration,
        approvals: 0,
        status: ProposalStatus::Pending,
        created_at: now,
    }
}

/// Whether a loan proposal still records approvals: while pending, and
/// once approved (approvals past the required number are counted too).
pub open spec fn accepts_approvals(s: ProposalStatus) -> bool {
    s == ProposalStatus::Pending || s == ProposalStatus::Approved
}

/// A loan proposal after one more approval: approved once the count
/// reaches the required number, and approved still after that.
pub open spec fn after_approval(p: LoanProposal) -> LoanProposal {
    LoanProposal {
        approvals: (p.approvals + 1) as u32,
        status: if p.status == ProposalStatus::Approved || p.approvals + 1
            >= REQUIRED_COMMITTEE_APPROVALS {
            ProposalStatus::Approved
        } else {
            ProposalStatus::Pending
        },
        ..p
    }
}

pub open spec fn with_loan_status(p: LoanProposal, s: ProposalStatus) -> LoanProposal {
    LoanProposal { status: s, ..p }
}

pub open spec fn with_status(p: GovernanceProposal, s: ProposalStatus) -> GovernanceProposal {
    GovernanceProposal { status: s, ..p }
}

/// A new governance proposal, open for seven days.
pub open spec fn new_parameter_proposal(
    id: ProposalId,
    proposer: Address,
    parameter: ProtocolParameter,
    new_value: u128,
    now: u64,
) -> GovernanceProposal {
    GovernanceProposal {
        id,
        proposer,
        parameter,
        new_value,
        votes_for: 0,
        votes_against: 0,
        voting_deadline: (now + VOTING_PERIOD) as u64,
        status: ProposalStatus::Pending,
    }
}

/// A governance proposal after a vote of `power` for or against it.
pub open spec fn after_vote(p: GovernanceProposal, support: bool, power: int) -> GovernanceProposal {
    if support {
        GovernanceProposal { votes_for: (p.votes_for + power) as u128, ..p }
    } else {
        GovernanceProposal { votes_against: (p.votes_against + power) as u128, ..p }
    }
}

/// Loan and trade proposals approved by a fixed committee, and protocol
/// parameter changes voted on with ledger balances as weight.
pub struct Governance {
    admin: Address,
    yield_token_contract: Address,
    committee: Vec<CommitteeMember>,
    min_proposal_tokens: u128,
    loans: Book<LoanProposal>,
    trades: Book<TradeParams>,
    proposals: Book<GovernanceProposal>,
    approvals: Vec<Mark>,
    votes: Vec<Mark>,
}

impl Governance {
    pub closed spec fn admin(&self) -> Address {
        self.admin
    }

    pub closed spec fn ledger_address(&self) -> Address {
        self.yield_token_contract
    }

    pub closed spec fn committee(&self) -> Seq<CommitteeMember> {
        self.committee@
    }

    /// Ledger balance a proposer needs.
    pub closed spec fn min_tokens(&self) -> u128 {
        self.min_proposal_tokens
    }

    pub closed spec fn loans(&self) -> Map<Seq<u8>, LoanProposal> {
        self.loans@
    }

    pub closed spec fn trades(&self) -> Map<Seq<u8>, TradeParams> {
        self.trades@
    }

    pub closed spec fn proposals(&self) -> Map<Seq<u8>, GovernanceProposal> {
        self.proposals@
    }

    /// Approval marks, never removed.
    pub closed spec fn approvals(&self) -> Seq<Mark> {
        self.approvals@
    }

    /// Vote marks, never removed.
    pub closed spec fn votes(&self) -> Seq<Mark> {
        self.votes@
    }

    pub closed spec fn books_wf(&self) -> bool {
        self.loans.wf() && self.trades.wf() && self.proposals.wf()
    }

    /// The committee has its fixed size and a pending loan proposal has
    /// fewer approvals than required.
    pub open spec fn wf(&self) -> bool {
        &&& self.books_wf()
        &&& self.committee().len() == TOTAL_COMMITTEE_SIZE
        &&& forall|k: Seq<u8>|
            #[trigger] self.loans().contains_key(k) && self.loans()[k].status
                == ProposalStatus::Pending ==> self.loans()[k].approvals
                < REQUIRED_COMMITTEE_APPROVALS
    }

    /// Nothing but the loan proposals and approval marks changed.
    pub open spec fn only_loan_changed(&self, old: &Self) -> bool {
        &&& self.admin() == old.admin()
        &&& self.ledger_address() == old.ledger_address()
        &&& self.committee() == old.committee()
        &&& self.min_tokens() == old.min_tokens()
        &&& self.trades() == old.trades()
        &&& self.proposals() == old.proposals()
        &&& self.votes() == old.votes()
    }

    /// Nothing but the trade proposals changed.
    pub open spec fn only_trades_changed(&self, old: &Self) -> bool {
        &&& self.admin() == old.admin()
        &&& self.ledger_address() == old.ledger_address()
        &&& self.committee() == old.committee()
        &&& self.min_tokens() == old.min_tokens()
        &&& self.loans() == old.loans()
        &&& self.proposals() == old.proposals()
        &&& self.approvals() == old.approvals()
        &&& self.votes() == old.votes()
    }

    /// Nothing but the governance proposals and vote marks changed.
    pub open spec fn only_proposals_changed(&self, old: &Self) -> bool {
        &&& self.admin() == old.admin()
        &&& self.ledger_address() == old.ledger_address()
        &&& self.committee() == old.committee()
        &&& self.min_tokens() == old.min_tokens()
        &&& self.loans() == old.loans()
        &&& self.trades() == old.trades()
        &&& self.approvals() == old.approvals()
    }

    /// Outcome of `approve_loan`.
    pub open spec fn approve_outcome(&self, id: Seq<u8>, approver: Address) -> Result<(), Error> {
        if !is_member(self.committee(), approver) {
            Err(Error::NotCommitteeMember)
        } else if !self.loans().contains_key(id) {
            Err(Error::ProposalNotFound)
        } else if !accepts_approvals(self.loans()[id].status) {
            Err(Error::NotPending)
        } else if has_mark(self.approvals(), id, approver) {
            Err(Error::AlreadyApproved)
        } else if self.loans()[id].approvals == u32::MAX {
            Err(Error::Overflow)
        } else {
            Ok(())
        }
    }

    /// Outcome of `vote_on_proposal` with `power` as the voter's balance.
    pub open spec fn vote_outcome(
        &self,
        id: Seq<u8>,
        voter: Address,
        support: bool,
        power: int,
        now: u64,
    ) -> Result<(), Error> {
        if !self.proposals().contains_key(id) {
            Err(Error::ProposalNotFound)
        } else if now >= self.proposals()[id].voting_deadline {
            Err(Error::VotingClosed)
        } else if self.proposals()[id].status != ProposalStatus::Pending {
            Err(Error::NotPending)
        } else if has_mark(self.votes(), id, voter) {
            Err(Error::AlreadyVoted)
        } else if support && self.proposals()[id].votes_for + power > u128::MAX {
            Err(Error::Overflow)
        } else if !support && self.proposals()[id].votes_against + power > u128::MAX {
            Err(Error::Overflow)
        } else {
            Ok(())
        }
    }

    /// Outcome of `execute_governance_proposal`.
    pub open spec fn execute_outcome(&self, id: Seq<u8>, now: u64) -> Result<(), Error> {
        if !self.proposals().contains_key(id) {
            Err(Error::ProposalNotFound)
        } else if now <= self.proposals()[id].voting_deadline {
            Err(Error::VotingOpen)
        } else if self.proposals()[id].votes_for <= self.proposals()[id].votes_against {
            Err(Error::ProposalRejected)
        } else {
            Ok(())
        }
    }

    /// A committee of exactly the fixed size is required.
    pub fn initialize(
        admin: Address,
        yield_token_contract: Address,
        initial_committee: Vec<CommitteeMember>,
        min_proposal_tokens: u128,
    ) -> (r: Result<Self, Error>)
        ensures
            initial_committee@.len() != TOTAL_COMMITTEE_SIZE ==> r == Err::<Self, Error>(
                Error::InvalidCommitteeSize,
            ),
            initial_committee@.len() == TOTAL_COMMITTEE_SIZE ==> (r matches Ok(g) && {
                &&& g.wf()
                &&& g.admin() == admin
                &&& g.ledger_address() == yield_token_contract
                &&& g.committee() == initial_committee@
                &&& g.min_tokens() == min_proposal_tokens
                &&& g.loans() == Map::<Seq<u8>, LoanProposal>::empty()
                &&& g.trades() == Map::<Seq<u8>, TradeParams>::empty()
                &&& g.proposals() == Map::<Seq<u8>, GovernanceProposal>::empty()
                &&& g.approvals() == Seq::<Mark>::empty()
                &&& g.votes() == Seq::<Mark>::empty()
            }),
    {
        if initial_committee.len() != TOTAL_COMMITTEE_SIZE as usize {
            return Err(Error::InvalidCommitteeSize);
        }
        Ok(
            Governance {
                admin,
                yield_token_contract,
                committee: initial_committee,
                min_proposal_tokens,
                loans: Book::new(),
                trades: Book::new(),
                proposals: Book::new(),
                approvals: Vec::new(),
                votes: Vec::new(),
            },
        )
    }

    /// Whether `member` sits on the committee.
    pub fn verify_committee_member(&self, member: Address) -> (r: Result<(), Error>)
        ensures
            r == (if is_member(self.committee(), member) {
                Ok(())
            } else {
                Err(Error::NotCommitteeMember)
            }),
    {
        let mut i: usize = 0;
        while i < self.committee.len()
            invariant
                0 <= i <= self.committee@.len(),
                forall|k: int| 0 <= k < i ==> self.committee@[k].address != member,
            decreases self.committee@.len() - i,
        {
            if self.committee[i].address == member {
                return Ok(());
            }
            i = i + 1;
        }
        Err(Error::NotCommitteeMember)
    }

    /// A voter's weight: its ledger balance now.
    pub fn get_voting_power(ledger: &YieldToken, user: Address) -> (r: u128)
        requires
            ledger.wf(),
        ensures
            r == ledger.balance_of(user),
    {
        proof {
            crate::yield_token::lemma_supply_is_sum_of_balances(*ledger);
        }
        ledger.balance(user) as u128
    }

    fn find_mark(marks: &Vec<Mark>, id: &ProposalId, voter: Address) -> (r: bool)
        ensures
            r == has_mark(marks@, id@, voter),
    {
        let mut i: usize = 0;
        while i < marks.len()
            invariant
                0 <= i <= marks@.len(),
                forall|k: int| 0 <= k < i ==> !(marks@[k].proposal@ == id@ && marks@[k].voter == voter),
            decreases marks@.len() - i,
        {
            if marks[i].voter == voter && same_id(&marks[i].proposal, id) {
                return true;
            }
            i = i + 1;
        }
        false
    }

    /// Files a new pending loan proposal under `id`.
    pub fn file_loan_proposal(
        &mut self,
        id: ProposalId,
        borrower: Address,
        loan_amount: u128,
        collateral_asset: Address,
        interest_rate: u128,
        duration_days: u64,
        now: u64,
    )
        requires
            old(self).wf(),
        ensures
            final(self).wf(),
            final(self).loans() == old(self).loans().insert(
                id@,
                new_loan(id, borrower, loan_amount, collateral_asset, interest_rate, duration_days, now),
            ),
            final(self).approvals() == old(self).approvals(),
            final(self).only_loan_changed(&*old(self)),
    {
        let proposal = LoanProposal {
            id,
            borrower,
            amount: loan_amount,
            collateral: collateral_asset,
            interest_rate,
            duration: duration_days,
            approvals: 0,
            status: ProposalStatus::Pending,
            created_at: now,
        };
        self.loans.set(id, proposal);
    }

    /// A committee member proposes a loan. Its id is the SHA-256 digest of
    /// the borrower, amount and time.
    pub fn submit_loan_proposal(
        &mut self,
        proposer: Address,
        borrower: Address,
        loan_amount: u128,
        collateral_asset: Address,
        interest_rate: u128,
        duration_days: u64,
        now: u64,
    ) -> (r: Result<ProposalId, Error>)
        requires
            old(self).wf(),
        ensures
            final(self).wf(),
            !is_member(old(self).committee(), proposer) ==> r == Err::<ProposalId, Error>(
                Error::NotCommitteeMember,
            ) && *final(self) == *old(self),
            is_member(old(self).committee(), proposer) ==> (r matches Ok(id) && {
                &&& id@ == sha256_of(loan_id_preimage(borrower, loan_amount, now))
                &&& final(self).loans() == old(self).loans().insert(
                    id@,
                    new_loan(id, borrower, loan_amount, collateral_asset, interest_rate, duration_days, now),
                )
                &&& final(self).approvals() == old(self).approvals()
                &&& final(self).only_loan_changed(&*old(self))
            }),
    {
        match self.verify_committee_member(proposer) {
            Err(e) => {
                return Err(e);
            },
            Ok(()) => {},
        }
        let bytes = loan_proposal_preimage(borrower, loan_amount, now);
        let proposal_id = sha256(&bytes);
        self.file_loan_proposal(
            proposal_id,
            borrower,
            loan_amount,
            collateral_asset,
            interest_rate,
            duration_days,
            now,
        );
        Ok(proposal_id)
    }

    /// A committee member approves a pending or approved loan proposal, once.
    /// The proposal becomes approved when its count reaches the required
    /// number; later approvals are still counted and recorded, and it stays
    /// approved. An executed proposal takes no approvals.
    pub fn approve_loan(&mut self, proposal_id: &ProposalId, approver: Address) -> (r: Result<(), Error>)
        requires
            old(self).wf(),
        ensures
            final(self).wf(),
            r == old(self).approve_outcome(proposal_id@, approver),
            r is Err ==> *final(self) == *old(self),
            r is Ok ==> {
                &&& final(self).loans() == old(self).loans().insert(
                    proposal_id@,
                    after_approval(old(self).loans()[proposal_id@]),
                )
                &&& final(self).approvals() == old(self).approvals().push(
                    Mark { proposal: *proposal_id, voter: approver },
                )
                &&& final(self).only_loan_changed(&*old(self))
            },
    {
        match self.verify_committee_member(approver) {
            Err(e) => {
                return Err(e);
            },
            Ok(()) => {},
        }
        let mut proposal = match self.loans.get(proposal_id) {
            Some(p) => *p,
            None => {
                return Err(Error::ProposalNotFound);
            },
        };
        if proposal.status != ProposalStatus::Pending && proposal.status != ProposalStatus::Approved {
            return Err(Error::NotPending);
        }
        if Self::find_mark(&self.approvals, proposal_id, approver) {
            return Err(Error::AlreadyApproved);
        }
        if proposal.approvals == u32::MAX {
            return Err(Error::Overflow);
        }
        self.approvals.push(Mark { proposal: *proposal_id, voter: approver });
        proposal.approvals = proposal.approvals + 1;
        if proposal.approvals >= REQUIRED_COMMITTEE_APPROVALS {
            proposal.status = ProposalStatus::Approved;
        }
        self.loans.set(*proposal_id, proposal);
        Ok(())
    }

    /// A committee member executes an approved loan proposal. Only the
    /// status changes: the movement of funds is not part of this library.
    pub fn execute_loan(&mut self, executor: Address, proposal_id: &ProposalId) -> (r: Result<(), Error>)
        requires
            old(self).wf(),
        ensures
            final(self).wf(),
            r == (if !is_member(old(self).committee(), executor) {
                Err(Error::NotCommitteeMember)
            } else if !old(self).loans().contains_key(proposal_id@) {
                Err(Error::ProposalNotFound)
            } else if old(self).loans()[proposal_id@].status != ProposalStatus::Approved {
                Err(Error::NotApproved)
            } else {
                Ok(())
            }),
            r is Err ==> *final(self) == *old(self),
            r is Ok ==> {
                &&& final(self).loans() == old(self).loans().insert(
                    proposal_id@,
                    with_loan_status(old(self).loans()[proposal_id@], ProposalStatus::Executed),
                )
                &&& final(self).approvals() == old(self).approvals()
                &&& final(self).only_loan_changed(&*old(self))
            },
    {
        match self.verify_committee_member(executor) {
            Err(e) => {
                return Err(e);
            },
            Ok(()) => {},
        }
        let mut proposal = match self.loans.get(proposal_id) {
            Some(p) => *p,
            None => {
                return Err(Error::ProposalNotFound);
            },
        };
        if proposal.status != ProposalStatus::Approved {
            return Err(Error::NotApproved);
        }
        proposal.status = ProposalStatus::Executed;
        self.loans.set(*proposal_id, proposal);
        Ok(())
    }

    /// Files a trade proposal under `id`.
    pub fn file_trade_proposal(&mut self, id: ProposalId, trade_params: TradeParams)
        requires
            old(self).wf(),
        ensures
            final(self).wf(),
            final(self).trades() == old(self).trades().insert(id@, trade_params),
            final(self).only_trades_changed(&*old(self)),
    {
        self.trades.set(id, trade_params);
    }

    /// A committee member proposes a trade. Its id is the SHA-256 digest of
    /// the input asset, input amount and time.
    pub fn submit_trade_proposal(&mut self, proposer: Address, trade_params: TradeParams, now: u64) -> (r:
        Result<ProposalId, Error>)
        requires
            old(self).wf(),
        ensures
            final(self).wf(),
            !is_member(old(self).committee(), proposer) ==> r == Err::<ProposalId, Error>(
                Error::NotCommitteeMember,
            ) && *final(self) == *old(self),
            is_member(old(self).committee(), proposer) ==> (r matches Ok(id) && {
                &&& id@ == sha256_of(
                    trade_id_preimage(trade_params.asset_in, trade_params.amount_in, now),
                )
                &&& final(self).trades() == old(self).trades().insert(id@, trade_params)
                &&& final(self).only_trades_changed(&*old(self))
            }),
    {
        match self.verify_committee_member(proposer) {
            Err(e) => {
                return Err(e);
            },
            Ok(()) => {},
        }
        let bytes = trade_proposal_preimage(trade_params.asset_in, trade_params.amount_in, now);
        let trade_id = sha256(&bytes);
        self.file_trade_proposal(trade_id, trade_params);
        Ok(trade_id)
    }

    /// A committee member executes a trade proposal before its deadline; the
    /// proposal is then removed, so it runs once. Settlement is not part of
    /// this library.
    pub fn execute_trade(&mut self, executor: Address, trade_id: &ProposalId, now: u64) -> (r: Result<
        (),
        Error,
    >)
        requires
            old(self).wf(),
        ensures
            final(self).wf(),
            r == (if !is_member(old(self).committee(), executor) {
                Err(Error::NotCommitteeMember)
            } else if !old(self).trades().contains_key(trade_id@) {
                Err(Error::TradeNotFound)
            } else if now > old(self).trades()[trade_id@].deadline {
                Err(Error::Expired)
            } else {
                Ok(())
            }),
            r is Err ==> *final(self) == *old(self),
            r is Ok ==> final(self).trades() == old(self).trades().remove(trade_id@)
                && final(self).only_trades_changed(&*old(self)),
    {
        match self.verify_committee_member(executor) {
            Err(e) => {
                return Err(e);
            },
            Ok(()) => {},
        }
        let trade_params = match self.trades.get(trade_id) {
            Some(t) => *t,
            None => {
                return Err(Error::TradeNotFound);
            },
        };
        if now > trade_params.deadline {
            return Err(Error::Expired);
        }
        self.trades.remove(trade_id);
        Ok(())
    }

    pub fn parameter_tag_of(parameter: ProtocolParameter) -> (r: u32)
        ensures
            r == parameter_tag(parameter),
    {
        match parameter {
            ProtocolParameter::MinimumLockPeriod => 0,
            ProtocolParameter::MaximumYieldRate => 1,
            ProtocolParameter::CollateralRatio => 2,
            ProtocolParameter::ProtocolFeeRate => 3,
            ProtocolParameter::EmergencyWithdrawFee => 4,
        }
    }

    /// Files a new parameter proposal under `id`, open for seven days from `now`.
    pub fn file_parameter_proposal(
        &mut self,
        id: ProposalId,
        proposer: Address,
        parameter: ProtocolParameter,
        new_value: u128,
        now: u64,
    )
        requires
            old(self).wf(),
            now + VOTING_PERIOD <= u64::MAX,
        ensures
            final(self).wf(),
            final(self).proposals() == old(self).proposals().insert(
                id@,
                new_parameter_proposal(id, proposer, parameter, new_value, now),
            ),
            final(self).votes() == old(self).votes(),
            final(self).only_proposals_changed(&*old(self)),
    {
        let proposal = GovernanceProposal {
            id,
            proposer,
            parameter,
            new_value,
            votes_for: 0,
            votes_against: 0,
            voting_deadline: now + VOTING_PERIOD,
            status: ProposalStatus::Pending,
        };
        self.proposals.set(id, proposal);
    }

    /// Proposes a new value for a protocol parameter. The proposer's ledger
    /// balance must reach the configured minimum. The id is the SHA-256
    /// digest of proposer, parameter, value and time.
    pub fn propose_parameter_change(
        &mut self,
        ledger: &YieldToken,
        proposer: Address,
        parameter: ProtocolParameter,
        new_value: u128,
        now: u64,
    ) -> (r: Result<ProposalId, Error>)
        requires
            old(self).wf(),
            ledger.wf(),
        ensures
            final(self).wf(),
            ledger.balance_of(proposer) < old(self).min_tokens() ==> r == Err::<ProposalId, Error>(
                Error::InsufficientVotingPower,
            ) && *final(self) == *old(self),
            ledger.balance_of(proposer) >= old(self).min_tokens() && now + VOTING_PERIOD > u64::MAX
                ==> r == Err::<ProposalId, Error>(Error::Overflow) && *final(self) == *old(self),
            ledger.balance_of(proposer) >= old(self).min_tokens() && now + VOTING_PERIOD
                <= u64::MAX ==> (r matches Ok(id) && {
                &&& id@ == sha256_of(
                    parameter_id_preimage(proposer, parameter_tag(parameter), new_value, now),
                )
                &&& final(self).proposals() == old(self).proposals().insert(
                    id@,
                    new_parameter_proposal(id, proposer, parameter, new_value, now),
                )
                &&& final(self).votes() == old(self).votes()
                &&& final(self).only_proposals_changed(&*old(self))
            }),
    {
        let proposer_balance = Self::get_voting_power(ledger, proposer);
        if proposer_balance < self.min_proposal_tokens {
            return Err(Error::InsufficientVotingPower);
        }
        if now > u64::MAX - VOTING_PERIOD {
            return Err(Error::Overflow);
        }
        let tag = Self::parameter_tag_of(parameter);
        let bytes = parameter_proposal_preimage(proposer, tag, new_value, now);
        let proposal_id = sha256(&bytes);
        self.file_parameter_proposal(proposal_id, proposer, parameter, new_value, now);
        Ok(proposal_id)
    }

    /// Casts `voter`'s vote, weighted by its ledger balance now, strictly
    /// before the deadline and once per proposal.
    pub fn vote_on_proposal(
        &mut self,
        ledger: &YieldToken,
        voter: Address,
        proposal_id: &ProposalId,
        support: bool,
        now: u64,
    ) -> (r: Result<(), Error>)
        requires
            old(self).wf(),
            ledger.wf(),
        ensures
            final(self).wf(),
            r == old(self).vote_outcome(proposal_id@, voter, support, ledger.balance_of(voter), now),
            r is Err ==> *final(self) == *old(self),
            r is Ok ==> {
                &&& final(self).proposals() == old(self).proposals().insert(
                    proposal_id@,
                    after_vote(
                        old(self).proposals()[proposal_id@],
                        support,
                        ledger.balance_of(voter),
                    ),
                )
                &&& final(self).votes() == old(self).votes().push(
                    Mark { proposal: *proposal_id, voter },
                )
                &&& final(self).only_proposals_changed(&*old(self))
            },
    {
        let mut proposal = match self.proposals.get(proposal_id) {
            Some(p) => *p,
            None => {
                return Err(Error::ProposalNotFound);
            },
        };
        if now >= proposal.voting_deadline {
            return Err(Error::VotingClosed);
        }
        if proposal.status != ProposalStatus::Pending {
            return Err(Error::NotPending);
        }
        if Self::find_mark(&self.votes, proposal_id, voter) {
            return Err(Error::AlreadyVoted);
        }
        let voting_power = Self::get_voting_power(ledger, voter);
        if support {
            match proposal.votes_for.checked_add(voting_power) {
                Some(v) => {
                    proposal.votes_for = v;
                },
                None => {
                    return Err(Error::Overflow);
                },
            }
        } else {
            match proposal.votes_against.checked_add(voting_power) {
                Some(v) => {
                    proposal.votes_against = v;
                },
                None => {
                    return Err(Error::Overflow);
                },
            }
        }
        self.votes.push(Mark { proposal: *proposal_id, voter });
        self.proposals.set(*proposal_id, proposal);
        Ok(())
    }

    /// Closes a vote after its deadline. A proposal whose votes in favour do
    /// not exceed those against, a tie included, is marked rejected and the
    /// call fails with `ProposalRejected`: the one failure that leaves a
    /// change behind, the rejected status. Otherwise the proposal is marked
    /// executed. The parameter itself is not changed by this library.
    pub fn execute_governance_proposal(&mut self, executor: Address, proposal_id: &ProposalId, now: u64) -> (r:
        Result<(), Error>)
        requires
            old(self).wf(),
        ensures
            final(self).wf(),
            r == old(self).execute_outcome(proposal_id@, now),
            r is Err && r != Err::<(), Error>(Error::ProposalRejected) ==> *final(self) == *old(self),
            r == Err::<(), Error>(Error::ProposalRejected) ==> final(self).proposals() == old(
                self,
            ).proposals().insert(
                proposal_id@,
                with_status(old(self).proposals()[proposal_id@], ProposalStatus::Rejected),
            ) && final(self).votes() == old(self).votes() && final(self).only_proposals_changed(
                &*old(self),
            ),
            r is Ok ==> final(self).proposals() == old(self).proposals().insert(
                proposal_id@,
                with_status(old(self).proposals()[proposal_id@], ProposalStatus::Executed),
            ) && final(self).votes() == old(self).votes() && final(self).only_proposals_changed(
                &*old(self),
            ),
    {
        let mut proposal = match self.proposals.get(proposal_id) {
            Some(p) => *p,
            None => {
                return Err(Error::ProposalNotFound);
            },
        };
        if now <= proposal.voting_deadline {
            return Err(Error::VotingOpen);
        }
        if proposal.votes_for <= proposal.votes_against {
            proposal.status = ProposalStatus::Rejected;
            self.proposals.set(*proposal_id, proposal);
            return Err(Error::ProposalRejected);
        }
        proposal.status = ProposalStatus::Executed;
        self.proposals.set(*proposal_id, proposal);
        Ok(())
    }

    pub fn get_loan_proposal(&self, proposal_id: &ProposalId) -> (r: Option<LoanProposal>)
        requires
            self.wf(),
        ensures
            r == (if self.loans().contains_key(proposal_id@) {
                Some(self.loans()[proposal_id@])
            } else {
                None
            }),
    {
        match self.loans.get(proposal_id) {
            Some(p) => Some(*p),
            None => None,
        }
    }

    pub fn get_governance_proposal(&self, proposal_id: &ProposalId) -> (r: Option<GovernanceProposal>)
        requires
            self.wf(),
        ensures
            r == (if self.proposals().contains_key(proposal_id@) {
                Some(self.proposals()[proposal_id@])
            } else {
                None
            }),
    {
        match self.proposals.get(proposal_id) {
            Some(p) => Some(*p),
            None => None,
        }
    }

    pub fn get_committee_members(&self) -> (r: Vec<CommitteeMember>)
        ensures
            r@ == self.committee(),
    {
        let mut out: Vec<CommitteeMember> = Vec::new();
        let mut i: usize = 0;
        while i < self.committee.len()
            invariant
                0 <= i <= self.committee@.len(),
                out@ == self.committee@.subrange(0, i as int),
            decreases self.committee@.len() - i,
        {
            out.push(self.committee[i]);
            i = i + 1;
            assert(out@ =~= self.committee@.subrange(0, i as int));
        }
        assert(out@ =~= self.committee@);
        out
    }

    /// Replaces the whole committee; administrator only, same size.
    pub fn update_committee(&mut self, admin: Address, new_committee: Vec<CommitteeMember>) -> (r: Result<
        (),
        Error,
    >)
        requires
            old(self).wf(),
        ensures
            final(self).wf(),
            r == (if admin != old(self).admin() {
                Err(Error::NotAuthorized)
            } else if new_committee@.len() != TOTAL_COMMITTEE_SIZE {
                Err(Error::InvalidCommitteeSize)
            } else {
                Ok(())
            }),
            r is Err ==> *final(self) == *old(self),
            r is Ok ==> {
                &&& final(self).committee() == new_committee@
                &&& final(self).admin() == old(self).admin()
                &&& final(self).loans() == old(self).loans()
                &&& final(self).trades() == old(self).trades()
                &&& final(self).proposals() == old(self).proposals()
                &&& final(self).approvals() == old(self).approvals()
                &&& final(self).votes() == old(self).votes()
            },
    {
        if admin != self.admin {
            return Err(Error::NotAuthorized);
        }
        if new_committee.len() != TOTAL_COMMITTEE_SIZE as usize {
            return Err(Error::InvalidCommitteeSize);
        }
        self.committee = new_committee;
        Ok(())
    }
}

/// An approval is counted once per member: after a member's approval of a
/// proposal succeeds, the same member's next approval of it fails.
pub proof fn lemma_approve_at_most_once(
    g0: Governance,
    g1: Governance,
    id: ProposalId,
    member: Address,
)
    requires
        g0.approve_outcome(id@, member) is Ok,
        g1.loans() == g0.loans().insert(id@, after_approval(g0.loans()[id@])),
        g1.approvals() == g0.approvals().push(Mark { proposal: id, voter: member }),
        g1.only_loan_changed(&g0),
    ensures
        g1.approve_outcome(id@, member) is Err,
{
    let n = g0.approvals().len() as int;
    assert(g1.approvals()[n].proposal@ == id@ && g1.approvals()[n].voter == member);
}

/// A pending proposal turns approved exactly at the approval that brings its
/// count to the required number: with three required, a fresh proposal is
/// A pending proposal turns approved exactly at the approval that brings its
/// count to the required number: with three required, a fresh proposal is
/// still pending after two approvals and approved after the third. A fourth
/// approval is counted and the proposal stays approved.
pub proof fn lemma_approval_threshold(p: LoanProposal)
    requires
        p.status == ProposalStatus::Pending,
        p.approvals < REQUIRED_COMMITTEE_APPROVALS,
    ensures
        after_approval(p).status == (if p.approvals + 1 >= REQUIRED_COMMITTEE_APPROVALS {
            ProposalStatus::Approved
        } else {
            ProposalStatus::Pending
        }),
        p.approvals == 0 ==> after_approval(after_approval(p)).status == ProposalStatus::Pending,
        p.approvals == 0 ==> after_approval(after_approval(after_approval(p))).status
            == ProposalStatus::Approved,
        p.approvals == 0 ==> after_approval(after_approval(after_approval(after_approval(p))))
            == (LoanProposal { approvals: 4, status: ProposalStatus::Approved, ..p }),
{
}

/// A vote that ends in a tie is never executed: closing it after the
/// deadline fails as rejected and marks the proposal rejected.
pub proof fn lemma_tie_is_rejected(g: Governance, id: ProposalId, now: u64)
    requires
        g.proposals().contains_key(id@),
        g.proposals()[id@].votes_for == g.proposals()[id@].votes_against,
        now > g.proposals()[id@].voting_deadline,
    ensures
        g.execute_outcome(id@, now) == Err::<(), Error>(Error::ProposalRejected),
        with_status(g.proposals()[id@], ProposalStatus::Rejected).status != ProposalStatus::Executed,
{
}

} // verus!
