//! Facts that only the host can supply: numeric comparisons of parameters
//! and limits, and queries of the vault (spending, credentials, the ledger
//! of allowed actions). Evaluation asks for them one at a time; the host
//! answers and evaluates again with the answer recorded.

use vstd::prelude::*;

verus! {

/// A fact that evaluation needs from the host.
#[derive(Debug)]
pub enum HostQuery {
    /// The numeric value of parameter `field` is greater than `threshold`.
    /// The answer is an error when `threshold` is not a number.
    ParamAbove { field: String, threshold: String },
    /// The numeric value of parameter `field` is less than `threshold`.
    ParamBelow { field: String, threshold: String },
    /// The session's spending in `category` is greater than `limit`.
    SpendAbove { category: String, limit: String },
    /// The session's spending in `category` plus parameter `amount_field`
    /// is greater than `limit`.
    SpendPlusAmountAbove { category: String, amount_field: String, limit: String },
    /// The vault holds a credential named `name`.
    CredentialExists { name: String },
    /// One of the `|`-separated terms of `search` occurs in the tool or the
    /// detail of one of the last `within` allowed actions.
    RecentAllowedAction { search: String, within: u32 },
}

pub enum QueryView {
    ParamAbove(Seq<char>, Seq<char>),
    ParamBelow(Seq<char>, Seq<char>),
    SpendAbove(Seq<char>, Seq<char>),
    SpendPlusAmountAbove(Seq<char>, Seq<char>, Seq<char>),
    CredentialExists(Seq<char>),
    RecentAllowedAction(Seq<char>, u32),
}

impl View for HostQuery {
    type V = QueryView;

    open spec fn view(&self) -> QueryView {
        match self {
            HostQuery::ParamAbove { field, threshold } => QueryView::ParamAbove(field@, threshold@),
            HostQuery::ParamBelow { field, threshold } => QueryView::ParamBelow(field@, threshold@),
            HostQuery::SpendAbove { category, limit } => QueryView::SpendAbove(category@, limit@),
            HostQuery::SpendPlusAmountAbove { category, amount_field, limit } =>
                QueryView::SpendPlusAmountAbove(category@, amount_field@, limit@),
            HostQuery::CredentialExists { name } => QueryView::CredentialExists(name@),
            HostQuery::RecentAllowedAction { search, within } => QueryView::RecentAllowedAction(
                search@,
                *within,
            ),
        }
    }
}

impl Clone for HostQuery {
    fn clone(&self) -> (r: Self)
        ensures
            r@ == self@,
    {
        match self {
            HostQuery::ParamAbove { field, threshold } => HostQuery::ParamAbove {
                field: field.clone(),
                threshold: threshold.clone(),
            },
            HostQuery::ParamBelow { field, threshold } => HostQuery::ParamBelow {
                field: field.clone(),
                threshold: threshold.clone(),
            },
            HostQuery::SpendAbove { category, limit } => HostQuery::SpendAbove {
                category: category.clone(),
                limit: limit.clone(),
            },
            HostQuery::SpendPlusAmountAbove { category, amount_field, limit } =>
                HostQuery::SpendPlusAmountAbove {
                category: category.clone(),
                amount_field: amount_field.clone(),
                limit: limit.clone(),
            },
            HostQuery::CredentialExists { name } => HostQuery::CredentialExists {
                name: name.clone(),
            },
            HostQuery::RecentAllowedAction { search, within } => HostQuery::RecentAllowedAction {
                search: search.clone(),
                within: *within,
            },
        }
    }
}

/// Whether two queries ask the same thing.
pub fn same_query(a: &HostQuery, b: &HostQuery) -> (r: bool)
    ensures
        r == (a@ == b@),
{
    match (a, b) {
        (
            HostQuery::ParamAbove { field: f1, threshold: t1 },
            HostQuery::ParamAbove { field: f2, threshold: t2 },
        ) => *f1 == *f2 && *t1 == *t2,
        (
            HostQuery::ParamBelow { field: f1, threshold: t1 },
            HostQuery::ParamBelow { field: f2, threshold: t2 },
        ) => *f1 == *f2 && *t1 == *t2,
        (
            HostQuery::SpendAbove { category: c1, limit: l1 },
            HostQuery::SpendAbove { category: c2, limit: l2 },
        ) => *c1 == *c2 && *l1 == *l2,
        (
            HostQuery::SpendPlusAmountAbove { category: c1, amount_field: a1, limit: l1 },
            HostQuery::SpendPlusAmountAbove { category: c2, amount_field: a2, limit: l2 },
        ) => *c1 == *c2 && *a1 == *a2 && *l1 == *l2,
        (HostQuery::CredentialExists { name: n1 }, HostQuery::CredentialExists { name: n2 }) =>
            *n1 == *n2,
        (
            HostQuery::RecentAllowedAction { search: s1, within: w1 },
            HostQuery::RecentAllowedAction { search: s2, within: w2 },
        ) => *s1 == *s2 && *w1 == *w2,
        _ => false,
    }
}

/// The view of an answer.
pub open spec fn answer_view(r: Result<bool, String>) -> Result<bool, Seq<char>> {
    match r {
        Ok(b) => Ok(b),
        Err(e) => Err(e@),
    }
}

pub fn clone_answer(r: &Result<bool, String>) -> (c: Result<bool, String>)
    ensures
        answer_view(c) == answer_view(*r),
{
    match r {
        Ok(b) => Ok(*b),
        Err(e) => Err(e.clone()),
    }
}

/// What the host has told evaluation so far.
#[derive(Debug)]
pub struct HostFacts {
    /// A vault is open. Without one, credential and ledger queries are
    /// answered `false` without asking.
    pub vault_available: bool,
    /// Answers, first one wins for a repeated query.
    pub answers: Vec<(HostQuery, Result<bool, String>)>,
}

pub struct FactsView {
    pub vault_available: bool,
    pub answers: Seq<(QueryView, Result<bool, Seq<char>>)>,
}

impl View for HostFacts {
    type V = FactsView;

    open spec fn view(&self) -> FactsView {
        FactsView {
            vault_available: self.vault_available,
            answers: self.answers@.map_values(
                |p: (HostQuery, Result<bool, String>)| (p.0@, answer_view(p.1)),
            ),
        }
    }
}

/// The first recorded answer to `q` at or after position `i`.
pub open spec fn answer_from(
    a: Seq<(QueryView, Result<bool, Seq<char>>)>,
    q: QueryView,
    i: int,
) -> Option<Result<bool, Seq<char>>>
    decreases a.len() - i,
{
    if i < 0 || i >= a.len() {
        None
    } else if a[i].0 == q {
        Some(a[i].1)
    } else {
        answer_from(a, q, i + 1)
    }
}

/// The recorded answer to `q`, if any.
pub open spec fn answer_of(f: FactsView, q: QueryView) -> Option<Result<bool, Seq<char>>> {
    answer_from(f.answers, q, 0)
}

impl HostFacts {
    /// No answers yet.
    pub fn new(vault_available: bool) -> (r: Self)
        ensures
            r@.vault_available == vault_available,
            r@.answers.len() == 0,
    {
        let r = HostFacts { vault_available, answers: Vec::new() };
        assert(r@.answers =~= Seq::empty());
        r
    }

    /// Facts for an evaluation without a vault.
    pub fn without_vault() -> (r: Self)
        ensures
            !r@.vault_available,
            r@.answers.len() == 0,
    {
        HostFacts::new(false)
    }

    /// Records the host's answer to `query`.
    pub fn record(&mut self, query: HostQuery, answer: Result<bool, String>)
        ensures
            final(self)@.vault_available == old(self)@.vault_available,
            final(self)@.answers == old(self)@.answers.push((query@, answer_view(answer))),
    {
        self.answers.push((query, answer));
        assert(self@.answers =~= old(self)@.answers.push((query@, answer_view(answer))));
    }

    /// The recorded answer to `q`.
    pub fn lookup(&self, q: &HostQuery) -> (r: Option<Result<bool, String>>)
        ensures
            match r {
                Some(a) => answer_of(self@, q@) == Some(answer_view(a)),
                None => answer_of(self@, q@) is None,
            },
    {
        let mut i: usize = 0;
        while i < self.answers.len()
            invariant
                i <= self.answers.len(),
                answer_from(self@.answers, q@, i as int) == answer_of(self@, q@),
            decreases self.answers.len() - i,
        {
            let entry = &self.answers[i];
            assert(self@.answers[i as int] == (entry.0@, answer_view(entry.1)));
            if same_query(&entry.0, q) {
                return Some(clone_answer(&entry.1));
            }
            i += 1;
        }
        None
    }
}

/// An evaluation either finishes or needs a fact from the host first.
#[derive(Debug)]
pub enum Pending<T> {
    Ready(T),
    NeedsFact(HostQuery),
}

} // verus!
