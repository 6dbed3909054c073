use vstd::prelude::*;
use crate::guard::Capability;
use crate::guard::CapabilityView;
use crate::text::same_text;

verus! {

/// One protected operation and the capability that it asks for.
#[derive(Debug, Clone, PartialEq, Eq)]
pub struct Route {
    pub operation: String,
    pub capability: Capability,
}

/// Mathematical value of a [`Route`].
pub struct RouteView {
    pub operation: Seq<char>,
    pub capability: CapabilityView,
}

impl View for Route {
    type V = RouteView;

    open spec fn view(&self) -> RouteView {
        RouteView { operation: self.operation@, capability: self.capability@ }
    }
}

/// The views of a list of routes, in order.
pub open spec fn routes_view(routes: Seq<Route>) -> Seq<RouteView> {
    Seq::new(routes.len(), |i: int| routes[i]@)
}

/// Some route is registered for `operation`.
pub open spec fn registered(routes: Seq<RouteView>, operation: Seq<char>) -> bool {
    exists|i: int| 0 <= i < routes.len() && (#[trigger] routes[i]).operation == operation
}

/// No operation is registered twice.
pub open spec fn distinct_operations(routes: Seq<RouteView>) -> bool {
    forall|i: int, j: int|
        0 <= i < j < routes.len() ==> (#[trigger] routes[i]).operation != (
        #[trigger] routes[j]).operation
}

/// The capability registered for `operation`, if there is one.
pub open spec fn capability_for(routes: Seq<RouteView>, operation: Seq<char>) -> Option<
    CapabilityView,
> {
    if registered(routes, operation) {
        Some(
            routes[choose|i: int|
                0 <= i < routes.len() && (#[trigger] routes[i]).operation
                    == operation].capability,
        )
    } else {
        None
    }
}

/// Where operations are distinct, the route at a place is the one that
/// [`capability_for`] finds for its operation.
pub proof fn lemma_capability_for(routes: Seq<RouteView>, i: int)
    requires
        distinct_operations(routes),
        0 <= i < routes.len(),
    ensures
        capability_for(routes, routes[i].operation) == Some(routes[i].capability),
{
    let operation = routes[i].operation;
    let k = choose|k: int| 0 <= k < routes.len() && (#[trigger] routes[k]).operation == operation;
    if k < i {
        assert(routes[k].operation != routes[i].operation);
    } else if i < k {
        assert(routes[i].operation != routes[k].operation);
    }
}

/// The table that says, for each protected operation of a service, which
/// capability it asks for. It is filled when the service is set up and only
/// read afterwards; what an operation asks for never depends on a request.
#[derive(Debug, Clone, PartialEq, Eq)]
pub struct RouteTable {
    routes: Vec<Route>,
}

impl View for RouteTable {
    type V = Seq<RouteView>;

    closed spec fn view(&self) -> Seq<RouteView> {
        routes_view(self.routes@)
    }
}

impl RouteTable {
    /// Each operation stands in the table once at most.
    pub open spec fn wf(&self) -> bool {
        distinct_operations(self@)
    }

    /// A table without routes.
    pub fn new() -> (r: RouteTable)
        ensures
            r@.len() == 0,
            r.wf(),
    {
        let r = RouteTable { routes: Vec::new() };
        assert(r@.len() == 0);
        r
    }

    /// Finds the place of the route of `operation`.
    fn position(&self, operation: &str) -> (r: Option<usize>)
        ensures
            match r {
                Some(i) => i < self@.len() && self@[i as int].operation == operation@
                    && self.routes@[i as int]@ == self@[i as int],
                None => !registered(self@, operation@),
            },
    {
        let mut i: usize = 0;
        while i < self.routes.len()
            invariant
                i <= self.routes.len(),
                self@.len() == self.routes.len(),
                forall|k: int| 0 <= k < i ==> (#[trigger] self@[k]).operation != operation@,
            decreases self.routes.len() - i,
        {
            assert(self@[i as int] == self.routes@[i as int]@);
            if same_text(self.routes[i].operation.as_str(), operation) {
                return Some(i);
            }
            i += 1;
        }
        None
    }

    /// Registers the capability that `operation` asks for. An operation is
    /// registered once: a second registration changes nothing and returns
    /// `false`.
    pub fn register(&mut self, operation: String, capability: Capability) -> (added: bool)
        requires
            old(self).wf(),
        ensures
            final(self).wf(),
            added == !registered(old(self)@, operation@),
            added ==> final(self)@ == old(self)@.push(
                RouteView { operation: operation@, capability: capability@ },
            ),
            !added ==> final(self)@ == old(self)@,
            registered(final(self)@, operation@),
            added ==> capability_for(final(self)@, operation@) == Some(capability@),
    {
        if self.position(operation.as_str()).is_some() {
            return false;
        }
        let ghost before = self@;
        let ghost route = RouteView { operation: operation@, capability: capability@ };
        self.routes.push(Route { operation, capability });
        assert(self@ =~= before.push(route));
        assert forall|i: int, j: int| 0 <= i < j < self@.len() implies (#[trigger] self@[i]).operation
            != (#[trigger] self@[j]).operation by {
            if j < before.len() {
                assert(self@[i] == before[i] && self@[j] == before[j]);
            } else {
                assert(self@[i] == before[i]);
            }
        }
        proof {
            lemma_capability_for(self@, before.len() as int);
        }
        true
    }

    /// The capability that `operation` asks for; `None` for an operation
    /// that was never registered.
    pub fn capability_of(&self, operation: &str) -> (r: Option<&Capability>)
        requires
            self.wf(),
        ensures
            match capability_for(self@, operation@) {
                Some(capability) => r matches Some(got) && got@ == capability,
                None => r is None,
            },
    {
        match self.position(operation) {
            Some(i) => {
                proof {
                    lemma_capability_for(self@, i as int);
                }
                Some(&self.routes[i].capability)
            },
            None => None,
        }
    }

    /// Checks, before a service starts to serve, that each of its protected
    /// operations is registered. The result is the place in `operations` of
    /// the first one that is not, and `None` where all are.
    pub fn first_unregistered(&self, operations: &Vec<String>) -> (r: Option<usize>)
        ensures
            match r {
                Some(i) => i < operations.len() && !registered(self@, operations@[i as int]@)
                    && forall|k: int| 0 <= k < i ==> registered(self@, (#[trigger] operations@[k])@),
                None => forall|k: int|
                    0 <= k < operations.len() ==> registered(self@, (#[trigger] operations@[k])@),
            },
    {
        let mut i: usize = 0;
        while i < operations.len()
            invariant
                i <= operations.len(),
                forall|k: int| 0 <= k < i ==> registered(self@, (#[trigger] operations@[k])@),
            decreases operations.len() - i,
        {
            if self.position(operations[i].as_str()).is_none() {
                return Some(i);
            }
            i += 1;
        }
        None
    }
}

} // verus!
