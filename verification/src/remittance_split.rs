//! Percentage split of incoming remittances into spending, savings, bills
//! and insurance.  An owner configures the percentages once and may update
//! them; amounts are split by truncating percentages, the insurance share
//! taking the remainder so that nothing is lost.
use vstd::prelude::*;
use crate::address::Address;

verus! {

#[derive(Clone, Copy, PartialEq, Eq, Structural, Debug)]
pub struct SplitConfig {
    pub owner: Address,
    pub spending_percent: u32,
    pub savings_percent: u32,
    pub bills_percent: u32,
    pub insurance_percent: u32,
    pub initialized: bool,
}

#[derive(Clone, Copy, PartialEq, Eq, Structural, Debug)]
pub enum SplitError {
    AlreadyInitialized,
    PercentagesMustSumTo100,
    NotInitialized,
    Unauthorized,
    NonPositiveTotal,
}

/// The failure message of each refusal.
pub open spec fn split_message(e: SplitError) -> Seq<char> {
    match e {
        SplitError::AlreadyInitialized => "Split already initialized. Use update_split to modify."@,
        SplitError::PercentagesMustSumTo100 => "Percentages must sum to 100"@,
        SplitError::NotInitialized => "Split not initialized"@,
        SplitError::Unauthorized => "Only the owner can update the split configuration"@,
        SplitError::NonPositiveTotal => "Total amount must be positive"@,
    }
}

impl SplitError {
    /// The contract's failure message for this refusal.
    pub fn message(self) -> (m: &'static str)
        ensures
            m@ == split_message(self),
    {
        match self {
            SplitError::AlreadyInitialized => "Split already initialized. Use update_split to modify.",
            SplitError::PercentagesMustSumTo100 => "Percentages must sum to 100",
            SplitError::NotInitialized => "Split not initialized",
            SplitError::Unauthorized => "Only the owner can update the split configuration",
            SplitError::NonPositiveTotal => "Total amount must be positive",
        }
    }
}

/// The percentages used when no configuration exists.
pub open spec fn default_split() -> Seq<u32> {
    seq![50u32, 30u32, 15u32, 5u32]
}

pub open spec fn percent_sum(a: u32, b: u32, c: u32, d: u32) -> int {
    a + b + c + d
}

/// The four amounts a positive `total` is split into for percentages `p`:
/// the first three truncate their share, the last takes what remains.
pub open spec fn split_amounts(total: int, p: Seq<u32>) -> Seq<int> {
    let spending = total * p[0] / 100;
    let savings = total * p[1] / 100;
    let bills = total * p[2] / 100;
    seq![spending, savings, bills, total - spending - savings - bills]
}

/// The remittance-split contract state.
pub struct RemittanceSplit {
    pub config: Option<SplitConfig>,
}

impl RemittanceSplit {
    /// A stored configuration always sums to one hundred percent.
    pub open spec fn wf(&self) -> bool {
        match self.config {
            Some(c) => percent_sum(
                c.spending_percent,
                c.savings_percent,
                c.bills_percent,
                c.insurance_percent,
            ) == 100,
            None => true,
        }
    }

    /// The percentages in force: the configured ones, else the default.
    pub open spec fn split_view(&self) -> Seq<u32> {
        match self.config {
            Some(c) => seq![c.spending_percent, c.savings_percent, c.bills_percent, c.insurance_percent],
            None => default_split(),
        }
    }

    pub fn new() -> (s: RemittanceSplit)
        ensures
            s.wf(),
            s.config is None,
    {
        RemittanceSplit { config: None }
    }

    /// Why storing the first configuration is refused.
    pub open spec fn init_error(&self, s: u32, v: u32, b: u32, i: u32) -> Option<SplitError> {
        if self.config is Some {
            Some(SplitError::AlreadyInitialized)
        } else if percent_sum(s, v, b, i) != 100 {
            Some(SplitError::PercentagesMustSumTo100)
        } else {
            None
        }
    }

    /// Why replacing the percentages is refused.
    pub open spec fn update_error(&self, caller: Address, s: u32, v: u32, b: u32, i: u32) -> Option<
        SplitError,
    > {
        match self.config {
            None => Some(SplitError::NotInitialized),
            Some(c) => if c.owner != caller {
                Some(SplitError::Unauthorized)
            } else if percent_sum(s, v, b, i) != 100 {
                Some(SplitError::PercentagesMustSumTo100)
            } else {
                None
            },
        }
    }

    /// The refusal of `initialize_split`, if any.
    pub fn initialize_refusal(
        &self,
        spending_percent: u32,
        savings_percent: u32,
        bills_percent: u32,
        insurance_percent: u32,
    ) -> (r: Option<SplitError>)
        requires
            percent_sum(spending_percent, savings_percent, bills_percent, insurance_percent)
                <= u32::MAX,
        ensures
            r == self.init_error(spending_percent, savings_percent, bills_percent, insurance_percent),
    {
        if self.config.is_some() {
            Some(SplitError::AlreadyInitialized)
        } else if spending_percent + savings_percent + bills_percent + insurance_percent != 100 {
            Some(SplitError::PercentagesMustSumTo100)
        } else {
            None
        }
    }

    /// The refusal of `update_split`, if any.
    pub fn update_refusal(
        &self,
        caller: Address,
        spending_percent: u32,
        savings_percent: u32,
        bills_percent: u32,
        insurance_percent: u32,
    ) -> (r: Option<SplitError>)
        requires
            percent_sum(spending_percent, savings_percent, bills_percent, insurance_percent)
                <= u32::MAX,
        ensures
            r == self.update_error(caller, spending_percent, savings_percent, bills_percent, insurance_percent),
    {
        match self.config {
            None => Some(SplitError::NotInitialized),
            Some(c) => if c.owner != caller {
                Some(SplitError::Unauthorized)
            } else if spending_percent + savings_percent + bills_percent + insurance_percent != 100 {
                Some(SplitError::PercentagesMustSumTo100)
            } else {
                None
            },
        }
    }

    /// The refusal of `calculate_split`, if any: only positive totals are split.
    pub fn calculate_refusal(&self, total_amount: i128) -> (r: Option<SplitError>)
        ensures
            r == if total_amount <= 0 {
                Some(SplitError::NonPositiveTotal)
            } else {
                None::<SplitError>
            },
    {
        if total_amount <= 0 {
            Some(SplitError::NonPositiveTotal)
        } else {
            None
        }
    }

    /// Stores the first configuration, owned by `owner`.
    pub fn initialize_split(
        &mut self,
        owner: Address,
        spending_percent: u32,
        savings_percent: u32,
        bills_percent: u32,
        insurance_percent: u32,
    ) -> (b: bool)
        requires
            old(self).wf(),
            old(self).init_error(spending_percent, savings_percent, bills_percent, insurance_percent)
                is None,
        ensures
            final(self).wf(),
            b,
            final(self).config == Some(
                SplitConfig {
                    owner,
                    spending_percent,
                    savings_percent,
                    bills_percent,
                    insurance_percent,
                    initialized: true,
                },
            ),
    {
        self.config = Some(
            SplitConfig {
                owner,
                spending_percent,
                savings_percent,
                bills_percent,
                insurance_percent,
                initialized: true,
            },
        );
        true
    }

    /// Replaces the percentages (owner only).
    pub fn update_split(
        &mut self,
        caller: Address,
        spending_percent: u32,
        savings_percent: u32,
        bills_percent: u32,
        insurance_percent: u32,
    ) -> (b: bool)
        requires
            old(self).wf(),
            old(self).update_error(caller, spending_percent, savings_percent, bills_percent, insurance_percent)
                is None,
        ensures
            final(self).wf(),
            b,
            final(self).config == Some(
                SplitConfig {
                    spending_percent,
                    savings_percent,
                    bills_percent,
                    insurance_percent,
                    ..old(self).config->0
                },
            ),
    {
        let c = self.config.unwrap();
        self.config = Some(
            SplitConfig { spending_percent, savings_percent, bills_percent, insurance_percent, ..c },
        );
        true
    }

    /// The percentages in force, as `[spending, savings, bills, insurance]`.
    pub fn get_split(&self) -> (v: Vec<u32>)
        ensures
            v@ == self.split_view(),
    {
        match self.config {
            Some(c) => vec![c.spending_percent, c.savings_percent, c.bills_percent, c.insurance_percent],
            None => vec![50, 30, 15, 5],
        }
    }

    pub fn get_config(&self) -> (c: Option<SplitConfig>)
        ensures
            c == self.config,
    {
        self.config
    }

    /// Splits a positive `total_amount` into `[spending, savings, bills, insurance]`.
    pub fn calculate_split(&self, total_amount: i128) -> (v: Vec<i128>)
        requires
            self.wf(),
            total_amount > 0,
            total_amount * self.split_view()[0] <= i128::MAX,
            total_amount * self.split_view()[1] <= i128::MAX,
            total_amount * self.split_view()[2] <= i128::MAX,
        ensures
            v@.len() == 4,
            forall|i: int| 0 <= i < 4 ==> v@[i] == split_amounts(total_amount as int, self.split_view())[i],
    {
        let split = self.get_split();
        let ghost p = self.split_view();
        let t = total_amount;
        let p0 = split[0] as i128;
        let p1 = split[1] as i128;
        let p2 = split[2] as i128;
        proof {
            lemma_percent_bounds(self);
            assert(0 <= t * p0 && 0 <= t * p1 && 0 <= t * p2) by (nonlinear_arith)
                requires
                    0 <= p0,
                    0 <= p1,
                    0 <= p2,
                    t > 0,
            ;
        }
        let spending = (t * p0) / 100;
        let savings = (t * p1) / 100;
        let bills = (t * p2) / 100;
        proof {
            lemma_shares_fit(t as int, p0 as int, p1 as int, p2 as int);
        }
        let insurance = t - spending - savings - bills;
        let v = vec![spending, savings, bills, insurance];
        assert(forall|i: int| 0 <= i < 4 ==> v@[i] == split_amounts(t as int, p)[i]);
        v
    }
}

proof fn lemma_percent_bounds(s: &RemittanceSplit)
    requires
        s.wf(),
    ensures
        s.split_view().len() == 4,
        s.split_view()[0] <= 100,
        s.split_view()[1] <= 100,
        s.split_view()[2] <= 100,
        s.split_view()[3] <= 100,
        s.split_view()[0] + s.split_view()[1] + s.split_view()[2] + s.split_view()[3] == 100,
{
}

/// The three truncated shares never exceed the total.
proof fn lemma_shares_fit(t: int, p0: int, p1: int, p2: int)
    requires
        t > 0,
        0 <= p0,
        0 <= p1,
        0 <= p2,
        p0 + p1 + p2 <= 100,
    ensures
        0 <= t * p0 / 100 + t * p1 / 100 + t * p2 / 100 <= t,
{
    assert(t * p0 / 100 + t * p1 / 100 + t * p2 / 100 <= (t * p0 + t * p1 + t * p2) / 100) by (nonlinear_arith)
        requires
            t > 0,
            0 <= p0,
            0 <= p1,
            0 <= p2,
    {
        assert(0 <= t * p0 && 0 <= t * p1 && 0 <= t * p2);
        assert(t * p0 / 100 * 100 <= t * p0);
        assert(t * p1 / 100 * 100 <= t * p1);
        assert(t * p2 / 100 * 100 <= t * p2);
    }
    assert((t * p0 + t * p1 + t * p2) / 100 <= t) by (nonlinear_arith)
        requires
            t > 0,
            0 <= p0,
            0 <= p1,
            0 <= p2,
            p0 + p1 + p2 <= 100,
    ;
    assert(0 <= t * p0 / 100 && 0 <= t * p1 / 100 && 0 <= t * p2 / 100) by (nonlinear_arith)
        requires
            t > 0,
            0 <= p0,
            0 <= p1,
            0 <= p2,
    ;
}

/// The four amounts of a split always add up to the total and none is
/// negative; spending, savings and bills each get their proportional share
/// rounded down, and the insurance share, which takes the remainder, is at
/// least its proportional share and less than three units above it.
pub proof fn law_split_conserves_total(total: int, p: Seq<u32>)
    requires
        total > 0,
        p.len() == 4,
        p[0] + p[1] + p[2] + p[3] == 100,
    ensures
        ({
            let a = split_amounts(total, p);
            &&& a[0] + a[1] + a[2] + a[3] == total
            &&& 0 <= a[0] && 0 <= a[1] && 0 <= a[2] && 0 <= a[3]
            &&& a[0] * 100 <= total * p[0] < a[0] * 100 + 100
            &&& a[1] * 100 <= total * p[1] < a[1] * 100 + 100
            &&& a[2] * 100 <= total * p[2] < a[2] * 100 + 100
            &&& total * p[3] <= a[3] * 100 < total * p[3] + 300
        }),
{
    let a = split_amounts(total, p);
    let (p0, p1, p2, p3) = (p[0] as int, p[1] as int, p[2] as int, p[3] as int);
    lemma_shares_fit(total, p0, p1, p2);
    assert(a[0] * 100 <= total * p0 < a[0] * 100 + 100) by (nonlinear_arith)
        requires
            a[0] == total * p0 / 100,
            total > 0,
            p0 >= 0,
    ;
    assert(a[1] * 100 <= total * p1 < a[1] * 100 + 100) by (nonlinear_arith)
        requires
            a[1] == total * p1 / 100,
            total > 0,
            p1 >= 0,
    ;
    assert(a[2] * 100 <= total * p2 < a[2] * 100 + 100) by (nonlinear_arith)
        requires
            a[2] == total * p2 / 100,
            total > 0,
            p2 >= 0,
    ;
    assert(total * 100 == total * p0 + total * p1 + total * p2 + total * p3) by (nonlinear_arith)
        requires
            p0 + p1 + p2 + p3 == 100,
    ;
}

} // verus!
