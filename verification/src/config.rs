//! Start-up settings: the command-line arguments and the plan the proxy is
//! started with.

use vstd::prelude::*;
use vstd::string::*;

verus! {

/// The address the proxy listens on when none is given.
pub open spec fn default_address() -> Seq<char> {
    "127.0.0.1:9001"@
}

/// The number of script workers when none is given.
pub const DEFAULT_POOL_NUMBER: usize = 1;

/// The command-line arguments.
#[derive(Debug)]
pub struct Args {
    filter_script: Option<String>,
    address: Option<String>,
    pool_number: Option<usize>,
}

pub struct ArgsView {
    pub filter_script: Option<Seq<char>>,
    pub address: Option<Seq<char>>,
    pub pool_number: Option<usize>,
}

pub open spec fn opt_view(s: Option<String>) -> Option<Seq<char>> {
    match s {
        Some(s) => Some(s@),
        None => None,
    }
}

impl View for Args {
    type V = ArgsView;

    closed spec fn view(&self) -> ArgsView {
        ArgsView {
            filter_script: opt_view(self.filter_script),
            address: opt_view(self.address),
            pool_number: self.pool_number,
        }
    }
}

/// The filter script and how many workers run it.
#[derive(Debug)]
pub struct FilterPlan {
    pub script: String,
    pub pool_size: usize,
}

/// What the proxy starts with.
#[derive(Debug)]
pub struct ProxyPlan {
    pub address: String,
    pub filter: Option<FilterPlan>,
}

pub struct ProxyPlanView {
    pub address: Seq<char>,
    pub filter: Option<(Seq<char>, usize)>,
}

impl View for ProxyPlan {
    type V = ProxyPlanView;

    open spec fn view(&self) -> ProxyPlanView {
        ProxyPlanView {
            address: self.address@,
            filter: match self.filter {
                Some(f) => Some((f.script@, f.pool_size)),
                None => None,
            },
        }
    }
}

/// The plan for given arguments: the given address or the default one; a
/// filter only when a script is given, run by the given number of workers
/// or by one.
pub open spec fn plan_for(args: ArgsView) -> ProxyPlanView {
    ProxyPlanView {
        address: match args.address {
            Some(a) => a,
            None => default_address(),
        },
        filter: match args.filter_script {
            Some(s) => Some(
                (
                    s,
                    match args.pool_number {
                        Some(n) => n,
                        None => DEFAULT_POOL_NUMBER,
                    },
                ),
            ),
            None => None,
        },
    }
}

/// The plan keeps a given address whatever else is given, and uses
/// `127.0.0.1:9001` only when none is; it runs a filter exactly when a
/// script is given, that script, on the given number of workers or on one;
/// and the pool number alone never makes a filter.
pub proof fn law_plan(args: ArgsView)
    ensures
        args.address matches Some(a) ==> plan_for(args).address == a,
        args.address is None ==> plan_for(args).address == "127.0.0.1:9001"@,
        plan_for(args).filter is Some <==> args.filter_script is Some,
        forall|s: Seq<char>, n: usize|
            plan_for(args).filter == Some((s, n)) ==> args.filter_script == Some(s) && (
            args.pool_number == Some(n) || (args.pool_number is None && n == 1)),
        forall|s: Seq<char>|
            args.filter_script == Some(s) && args.pool_number is None ==> plan_for(args).filter
                == Some((s, 1usize)),
        forall|s: Seq<char>, n: usize|
            args.filter_script == Some(s) && args.pool_number == Some(n) ==> plan_for(args).filter
                == Some((s, n)),
{
}

impl Args {
    pub fn new(filter_script: Option<String>, address: Option<String>, pool_number: Option<usize>) -> (a:
        Args)
        ensures
            a@ == (ArgsView {
                filter_script: opt_view(filter_script),
                address: opt_view(address),
                pool_number,
            }),
    {
        Args { filter_script, address, pool_number }
    }

    /// The filter script, if one was given.
    pub fn filter_script(&self) -> (s: Option<String>)
        ensures
            opt_view(s) == self@.filter_script,
    {
        self.filter_script.clone()
    }

    /// The address, if one was given.
    pub fn address(&self) -> (s: Option<String>)
        ensures
            opt_view(s) == self@.address,
    {
        self.address.clone()
    }

    /// The number of script workers, if one was given.
    pub fn pool_number(&self) -> (n: Option<usize>)
        ensures
            n == self@.pool_number,
    {
        self.pool_number
    }
}

/// The proxy, as configured from the command line.
#[derive(Debug)]
pub struct Proxy {
    args: Args,
}

impl Proxy {
    pub closed spec fn args_view(&self) -> ArgsView {
        self.args@
    }

    pub fn new(args: Args) -> (p: Proxy)
        ensures
            p.args_view() == args@,
    {
        Proxy { args }
    }

    /// The plan the proxy starts with.
    pub fn plan(&self) -> (p: ProxyPlan)
        ensures
            p@ == plan_for(self.args_view()),
            self.args_view().address matches Some(a) ==> p@.address == a,
    {
        let address = match &self.args.address {
            Some(a) => a.clone(),
            None => "127.0.0.1:9001".to_owned(),
        };
        let filter = match &self.args.filter_script {
            Some(s) => Some(
                FilterPlan {
                    script: s.clone(),
                    pool_size: match self.args.pool_number {
                        Some(n) => n,
                        None => DEFAULT_POOL_NUMBER,
                    },
                },
            ),
            None => None,
        };
        ProxyPlan { address, filter }
    }
}

} // verus!
