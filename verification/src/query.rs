//! The query gateway: read-only answers about one instance.

use vstd::prelude::*;
use crate::config::{Config, ConfigView};
use crate::engine::{Puppeteer, PuppeteerView};
use crate::error::ContractError;
use crate::ledger::{select, views, Transfer, TransferView};
use crate::projector::{projection, DelegationsResponse, DelegationsResponseView};
use crate::state::{State, StateView};

verus! {

/// What can be asked of an instance.
#[derive(Clone, Copy, Debug, PartialEq, Eq)]
pub enum QueryMsg {
    Config {  },
    State {  },
    InterchainTransactions {  },
    Delegations {  },
}

/// The answer to a [`QueryMsg`].
#[derive(Clone, Debug, PartialEq, Eq)]
pub enum QueryResponse {
    Config(Config),
    State(State),
    /// The whole ledger, in submission order.
    InterchainTransactions(Vec<Transfer>),
    Delegations(DelegationsResponse),
}

/// Mathematical model of a [`QueryResponse`].
pub enum QueryResponseView {
    Config(ConfigView),
    State(StateView),
    InterchainTransactions(Seq<TransferView>),
    Delegations(DelegationsResponseView),
}

impl View for QueryResponse {
    type V = QueryResponseView;

    open spec fn view(&self) -> QueryResponseView {
        match self {
            QueryResponse::Config(c) => QueryResponseView::Config(c@),
            QueryResponse::State(s) => QueryResponseView::State(s@),
            QueryResponse::InterchainTransactions(l) => QueryResponseView::InterchainTransactions(
                views(l@),
            ),
            QueryResponse::Delegations(d) => QueryResponseView::Delegations(d@),
        }
    }
}

/// What an initialised instance answers.
pub open spec fn spec_query(p: PuppeteerView, msg: QueryMsg) -> QueryResponseView {
    match msg {
        QueryMsg::Config {  } => QueryResponseView::Config(p.config.unwrap()),
        QueryMsg::State {  } => QueryResponseView::State(p.state),
        QueryMsg::InterchainTransactions {  } => QueryResponseView::InterchainTransactions(p.ledger),
        QueryMsg::Delegations {  } => QueryResponseView::Delegations(
            projection(p.state.confirmed_snapshot, p.ledger),
        ),
    }
}

/// With no filter, a selection is the whole ledger.
pub proof fn lemma_select_all(l: Seq<TransferView>)
    ensures
        select(l, None) == l,
    decreases l.len(),
{
    if l.len() > 0 {
        lemma_select_all(l.drop_last());
        assert(l.drop_last().push(l.last()) =~= l);
    }
}

impl Puppeteer {
    /// Answers a query. Nothing is changed. The only failure is `NotFound`,
    /// for an instance that was never initialised.
    pub fn query(&self, msg: QueryMsg) -> (r: Result<QueryResponse, ContractError>)
        requires
            self.wf(),
        ensures
            self@.config is None ==> r matches Err(ContractError::NotFound),
            self@.config is Some ==> (r matches Ok(answer) && answer@ == spec_query(self@, msg)),
    {
        let config = match self.config() {
            Some(c) => c,
            None => {
                return Err(ContractError::NotFound);
            },
        };
        match msg {
            QueryMsg::Config {  } => Ok(QueryResponse::Config(config)),
            QueryMsg::State {  } => Ok(QueryResponse::State(self.state())),
            QueryMsg::InterchainTransactions {  } => {
                proof {
                    lemma_select_all(self@.ledger);
                }
                Ok(QueryResponse::InterchainTransactions(self.ledger().list(None)))
            },
            QueryMsg::Delegations {  } => Ok(QueryResponse::Delegations(self.current_estimate())),
        }
    }
}

} // verus!
