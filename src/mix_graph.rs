//! The routing graph: buses, each with an optional low-pass filter, each
//! sending its output to another bus or to the master.

use crate::mood::Param;
use vstd::prelude::*;

verus! {

/// Where a bus or a stem sends its output.
#[derive(Clone, Copy, Debug, PartialEq, Eq, Structural)]
pub enum Output {
    Master,
    Bus(usize),
}

/// A bus: an optional low-pass filter with its cutoff, and its destination.
#[derive(Clone, Copy, Debug, PartialEq, Eq)]
pub struct Bus {
    pub cutoff: Option<Param>,
    pub output: Output,
}

impl Bus {
    /// A modulated cutoff has a well-formed mapping.
    pub open spec fn wf(self) -> bool {
        match self.cutoff {
            Some(p) => p.wf(),
            None => true,
        }
    }
}

#[derive(Clone, Copy, Debug, PartialEq, Eq, Structural)]
pub enum MixError {
    /// A route names a bus that does not exist.
    UnknownBus,
    /// A route would make a bus feed, directly or not, into itself.
    RoutingCycle,
}

/// Where one hop from `d` leads.
pub open spec fn step(outs: Seq<Output>, d: Output) -> Output {
    match d {
        Output::Master => Output::Master,
        Output::Bus(j) => if j < outs.len() {
            outs[j as int]
        } else {
            Output::Master
        },
    }
}

/// Where `k` hops from `d` lead.
pub open spec fn walk(outs: Seq<Output>, d: Output, k: nat) -> Output
    decreases k,
{
    if k == 0 {
        d
    } else {
        step(outs, walk(outs, d, (k - 1) as nat))
    }
}

/// `d` is the master or a bus of the graph.
pub open spec fn known(outs: Seq<Output>, d: Output) -> bool {
    match d {
        Output::Master => true,
        Output::Bus(j) => j < outs.len(),
    }
}

/// Every destination is the master or a bus of the graph.
pub open spec fn targets_known(outs: Seq<Output>) -> bool {
    forall|i: int| 0 <= i < outs.len() ==> known(outs, #[trigger] outs[i])
}

/// Every bus reaches the master within as many hops as there are buses,
/// which for a graph where each bus has one destination means no cycle.
pub open spec fn acyclic(outs: Seq<Output>) -> bool {
    forall|b: usize| b < outs.len() ==> #[trigger] walk(outs, Output::Bus(b), outs.len()) == Output::Master
}

/// The destination of each bus of `buses`, by index.
pub open spec fn outputs_spec(buses: Seq<Bus>) -> Seq<Output> {
    buses.map_values(|b: Bus| b.output)
}

/// A fixed topology of buses.
pub struct MixGraph {
    buses: Vec<Bus>,
}

impl MixGraph {
    /// The destination of each bus, by index.
    pub open spec fn outputs(self) -> Seq<Output> {
        outputs_spec(self.buses_spec())
    }

    /// The buses, by index.
    pub closed spec fn buses_spec(self) -> Seq<Bus> {
        self.buses@
    }

    pub open spec fn wf(self) -> bool {
        &&& targets_known(self.outputs())
        &&& acyclic(self.outputs())
        &&& forall|i: int| 0 <= i < self.buses_spec().len() ==> (#[trigger] self.buses_spec()[i]).wf()
    }

    /// A graph with no buses: everything goes to the master.
    pub fn new() -> (g: MixGraph)
        ensures
            g.wf(),
            g.buses_spec().len() == 0,
    {
        MixGraph { buses: Vec::new() }
    }

    pub fn bus_count(&self) -> (n: usize)
        ensures
            n == self.buses_spec().len(),
    {
        self.buses.len()
    }

    /// The bus at `handle`.
    pub fn bus(&self, handle: usize) -> (b: Bus)
        requires
            handle < self.buses_spec().len(),
        ensures
            b == self.buses_spec()[handle as int],
    {
        self.buses[handle]
    }

    /// Adds a bus with the given filter cutoff, sent to the master, and
    /// returns its handle.
    pub fn create_bus(&mut self, cutoff: Option<Param>) -> (h: usize)
        requires
            old(self).wf(),
            old(self).buses_spec().len() < usize::MAX,
            (Bus { cutoff, output: Output::Master }).wf(),
        ensures
            final(self).wf(),
            h == old(self).buses_spec().len(),
            final(self).buses_spec() == old(self).buses_spec().push(
                Bus { cutoff, output: Output::Master },
            ),
    {
        let ghost p = self.outputs();
        let h = self.buses.len();
        self.buses.push(Bus { cutoff, output: Output::Master });
        proof {
            let p2 = self.outputs();
            assert(p2 =~= p.push(Output::Master));
            lemma_push_master_acyclic(p);
        }
        h
    }

    /// Sends bus `source` to `dest`. Fails, leaving the graph as it was, when
    /// either names no bus of the graph or when the route would close a cycle.
    pub fn route(&mut self, source: usize, dest: Output) -> (r: Result<(), MixError>)
        requires
            old(self).wf(),
        ensures
            final(self).wf(),
            !(source < old(self).buses_spec().len() && known(old(self).outputs(), dest)) ==> r
                == Err::<(), MixError>(MixError::UnknownBus),
            (source < old(self).buses_spec().len() && known(old(self).outputs(), dest)) ==> {
                let outs = old(self).outputs().update(source as int, dest);
                &&& acyclic(outs) ==> r == Ok::<(), MixError>(())
                &&& !acyclic(outs) ==> r == Err::<(), MixError>(MixError::RoutingCycle)
            },
            r is Ok ==> final(self).buses_spec() == old(self).buses_spec().update(
                source as int,
                Bus { cutoff: old(self).buses_spec()[source as int].cutoff, output: dest },
            ),
            r is Err ==> *final(self) == *old(self),
    {
        let n = self.buses.len();
        if source >= n {
            return Err(MixError::UnknownBus);
        }
        match dest {
            Output::Bus(j) => {
                if j >= n {
                    return Err(MixError::UnknownBus);
                }
            },
            Output::Master => {},
        }
        let mut outs = outputs_of(&self.buses);
        outs.set(source, dest);
        if !is_acyclic(&outs) {
            return Err(MixError::RoutingCycle);
        }
        let cutoff = self.buses[source].cutoff;
        self.buses.set(source, Bus { cutoff, output: dest });
        proof {
            assert(self.outputs() =~= outs@);
        }
        Ok(())
    }
}

/// The destination of each bus.
fn outputs_of(buses: &Vec<Bus>) -> (outs: Vec<Output>)
    ensures
        outs@ == outputs_spec(buses@),
{
    let mut outs: Vec<Output> = Vec::new();
    let mut i: usize = 0;
    while i < buses.len()
        invariant
            i <= buses@.len(),
            outs@ == outputs_spec(buses@.subrange(0, i as int)),
        decreases buses@.len() - i,
    {
        outs.push(buses[i].output);
        proof {
            assert(buses@.subrange(0, i + 1) =~= buses@.subrange(0, i as int).push(buses@[i as int]));
        }
        i += 1;
    }
    proof {
        assert(buses@.subrange(0, buses@.len() as int) =~= buses@);
    }
    outs
}

/// Where `n` hops from bus `b` lead.
fn walk_from(outs: &Vec<Output>, b: usize, n: usize) -> (d: Output)
    ensures
        d == walk(outs@, Output::Bus(b), n as nat),
{
    let mut d = Output::Bus(b);
    let mut k: usize = 0;
    while k < n
        invariant
            k <= n,
            d == walk(outs@, Output::Bus(b), k as nat),
        decreases n - k,
    {
        d = match d {
            Output::Master => Output::Master,
            Output::Bus(j) => if j < outs.len() {
                outs[j]
            } else {
                Output::Master
            },
        };
        k += 1;
    }
    d
}

/// Whether every bus reaches the master within as many hops as there are
/// buses.
pub fn is_acyclic(outs: &Vec<Output>) -> (r: bool)
    ensures
        r == acyclic(outs@),
{
    let n = outs.len();
    let mut b: usize = 0;
    while b < n
        invariant
            n == outs@.len(),
            b <= n,
            forall|c: usize| c < b ==> #[trigger] walk(outs@, Output::Bus(c), n as nat) == Output::Master,
        decreases n - b,
    {
        match walk_from(outs, b, n) {
            Output::Master => {},
            Output::Bus(_) => {
                assert(walk(outs@, Output::Bus(b), n as nat) != Output::Master);
                return false;
            },
        }
        b += 1;
    }
    true
}

/// Builds a graph from a list of buses, each naming its destination by
/// index. Fails when a destination names no bus, or when the routes form a
/// cycle.
pub fn build_mix_graph(buses: Vec<Bus>) -> (r: Result<MixGraph, MixError>)
    requires
        forall|i: int| 0 <= i < buses@.len() ==> (#[trigger] buses@[i]).wf(),
    ensures
        ({
            let outs = outputs_spec(buses@);
            &&& !targets_known(outs) ==> r == Err::<MixGraph, MixError>(MixError::UnknownBus)
            &&& targets_known(outs) && !acyclic(outs) ==> r == Err::<MixGraph, MixError>(
                MixError::RoutingCycle,
            )
            &&& targets_known(outs) && acyclic(outs) ==> (r matches Ok(g) && g.wf() && g.buses_spec()
                == buses@)
        }),
{
    let outs = outputs_of(&buses);
    let n = outs.len();
    let mut i: usize = 0;
    while i < n
        invariant
            n == outs@.len(),
            outs@ == outputs_spec(buses@),
            i <= n,
            forall|c: int| 0 <= c < i ==> known(outs@, #[trigger] outs@[c]),
        decreases n - i,
    {
        match outs[i] {
            Output::Bus(j) => {
                if j >= n {
                    assert(!known(outs@, outs@[i as int]));
                    assert(!targets_known(outs@));
                    return Err(MixError::UnknownBus);
                }
            },
            Output::Master => {},
        }
        i += 1;
    }
    if !is_acyclic(&outs) {
        return Err(MixError::RoutingCycle);
    }
    Ok(MixGraph { buses })
}

/// The master stays the master.
proof fn lemma_walk_master(outs: Seq<Output>, k: nat)
    ensures
        walk(outs, Output::Master, k) == Output::Master,
    decreases k,
{
    if k > 0 {
        lemma_walk_master(outs, (k - 1) as nat);
    }
}

/// Once a walk is at the master it stays there.
proof fn lemma_walk_stays(outs: Seq<Output>, d: Output, k: nat, k2: nat)
    requires
        walk(outs, d, k) == Output::Master,
        k <= k2,
    ensures
        walk(outs, d, k2) == Output::Master,
    decreases k2,
{
    if k2 > k {
        lemma_walk_stays(outs, d, k, (k2 - 1) as nat);
    }
}

/// Adding a bus sent to the master changes no walk from the old graph.
proof fn lemma_walk_push(outs: Seq<Output>, d: Output, k: nat)
    requires
        targets_known(outs),
        known(outs, d),
    ensures
        walk(outs.push(Output::Master), d, k) == walk(outs, d, k),
        known(outs, walk(outs, d, k)),
    decreases k,
{
    if k > 0 {
        lemma_walk_push(outs, d, (k - 1) as nat);
    }
}

/// Adding a bus sent to the master keeps a graph free of cycles.
proof fn lemma_push_master_acyclic(outs: Seq<Output>)
    requires
        targets_known(outs),
        acyclic(outs),
    ensures
        targets_known(outs.push(Output::Master)),
        acyclic(outs.push(Output::Master)),
{
    let p2 = outs.push(Output::Master);
    let n = outs.len();
    assert forall|i: int| 0 <= i < p2.len() implies known(p2, #[trigger] p2[i]) by {
        if i < n {
            assert(known(outs, outs[i]));
        }
    }
    assert forall|b: usize| b < p2.len() implies #[trigger] walk(p2, Output::Bus(b), p2.len()) == Output::Master by {
        if b < n {
            lemma_walk_push(outs, Output::Bus(b), n);
            lemma_walk_stays(p2, Output::Bus(b), n, p2.len());
        } else {
            assert(walk(p2, Output::Bus(b), 0) == Output::Bus(b));
            assert(walk(p2, Output::Bus(b), 1) == Output::Master);
            lemma_walk_stays(p2, Output::Bus(b), 1, p2.len());
        }
    }
}

/// A bus sent to itself never reaches the master.
proof fn lemma_self_loop_walk(outs: Seq<Output>, s: usize, k: nat)
    requires
        s < outs.len(),
        outs[s as int] == Output::Bus(s),
    ensures
        walk(outs, Output::Bus(s), k) == Output::Bus(s),
    decreases k,
{
    if k > 0 {
        lemma_self_loop_walk(outs, s, (k - 1) as nat);
    }
}

/// Sending a bus to itself leaves a graph that is not acyclic, so `route`
/// answers such a request with `RoutingCycle`.
pub proof fn lemma_self_route_refused(g: MixGraph, s: usize)
    requires
        g.wf(),
        s < g.buses_spec().len(),
    ensures
        !acyclic(g.outputs().update(s as int, Output::Bus(s))),
{
    let outs = g.outputs().update(s as int, Output::Bus(s));
    lemma_self_loop_walk(outs, s, outs.len());
    assert(walk(outs, Output::Bus(s), outs.len()) != Output::Master);
}

} // verus!
