//! The neural controller: decoding a genome into a feed-forward network and
//! evaluating it.
//!
//! The network has three layers. Sensors feed hidden nodes and action nodes,
//! hidden nodes feed action nodes. Several connections between the same two
//! nodes add up. A gene from a hidden node to a hidden node would close a
//! cycle and decodes to no connection, as does a gene that names a layer
//! without nodes.

use crate::action::Action;
use crate::gene::{Gene, SinkKind, SourceKind, UNIT};
use crate::genome::Genome;
use vstd::prelude::*;

verus! {

/// An action is taken only where its node's activation exceeds this value.
pub const FIRE_THRESHOLD: i32 = 100;

/// A bound on the size of the product of a weight and an activation.
pub const TERM_BOUND: i128 = 0x4000_0000_0000_0000;

/// The fixed architecture of a controller.
#[derive(Clone, Copy, Debug, PartialEq, Eq, Structural, Hash)]
pub struct NsShape {
    pub sensor_count: usize,
    pub hidden_count: usize,
    pub action_count: usize,
}

impl NsShape {
    /// The shape with the given numbers of nodes.
    pub fn new(sensor_count: usize, hidden_count: usize, action_count: usize) -> (shape: NsShape)
        ensures
            shape.sensor_count == sensor_count,
            shape.hidden_count == hidden_count,
            shape.action_count == action_count,
    {
        NsShape { sensor_count, hidden_count, action_count }
    }

    /// The number of nodes of a layer that connections start in.
    pub open spec fn source_count_spec(self, kind: SourceKind) -> usize {
        match kind {
            SourceKind::Sensor => self.sensor_count,
            SourceKind::Hidden => self.hidden_count,
        }
    }

    /// The number of nodes of a layer that connections end in.
    pub open spec fn sink_count_spec(self, kind: SinkKind) -> usize {
        match kind {
            SinkKind::Hidden => self.hidden_count,
            SinkKind::Action => self.action_count,
        }
    }

    /// The number of nodes of a layer that connections start in.
    pub fn source_count(&self, kind: SourceKind) -> (n: usize)
        ensures
            n == self.source_count_spec(kind),
    {
        match kind {
            SourceKind::Sensor => self.sensor_count,
            SourceKind::Hidden => self.hidden_count,
        }
    }

    /// The number of nodes of a layer that connections end in.
    pub fn sink_count(&self, kind: SinkKind) -> (n: usize)
        ensures
            n == self.sink_count_spec(kind),
    {
        match kind {
            SinkKind::Hidden => self.hidden_count,
            SinkKind::Action => self.action_count,
        }
    }
}

/// A connection of a network: a gene whose node ids have been resolved.
#[derive(Clone, Copy, Debug, PartialEq, Eq, Structural, Hash)]
pub struct Conn {
    pub src_kind: SourceKind,
    pub src: usize,
    pub dst_kind: SinkKind,
    pub dst: usize,
    pub weight: i32,
}

impl Conn {
    /// Whether the connection joins two nodes of the shape and runs forward.
    pub open spec fn fits(self, shape: NsShape) -> bool {
        &&& self.src < shape.source_count_spec(self.src_kind)
        &&& self.dst < shape.sink_count_spec(self.dst_kind)
        &&& !(self.src_kind == SourceKind::Hidden && self.dst_kind == SinkKind::Hidden)
    }

    /// The connection that `gene` stands for in a network of the given shape:
    /// each node id is taken modulo the size of its layer. There is none
    /// where a layer that the gene names has no node, or where the gene runs
    /// from a hidden node to a hidden node.
    pub open spec fn decode_spec(gene: Gene, shape: NsShape) -> Option<Conn> {
        let sources: usize = shape.source_count_spec(gene.src_kind);
        let sinks: usize = shape.sink_count_spec(gene.dst_kind);
        if sources == 0 || sinks == 0 || (gene.src_kind == SourceKind::Hidden && gene.dst_kind
            == SinkKind::Hidden) {
            None
        } else {
            Some(
                Conn {
                    src_kind: gene.src_kind,
                    src: ((gene.src as int) % (sources as int)) as usize,
                    dst_kind: gene.dst_kind,
                    dst: ((gene.dst as int) % (sinks as int)) as usize,
                    weight: gene.weight,
                },
            )
        }
    }

    /// Resolves the node ids of `gene` against `shape`.
    pub fn decode(gene: Gene, shape: NsShape) -> (conn: Option<Conn>)
        ensures
            conn == Conn::decode_spec(gene, shape),
            conn matches Some(c) ==> c.fits(shape),
    {
        let sources: usize = shape.source_count(gene.src_kind);
        let sinks: usize = shape.sink_count(gene.dst_kind);
        let cyclic: bool = match (gene.src_kind, gene.dst_kind) {
            (SourceKind::Hidden, SinkKind::Hidden) => true,
            _ => false,
        };
        if sources == 0 || sinks == 0 || cyclic {
            None
        } else {
            Some(
                Conn {
                    src_kind: gene.src_kind,
                    src: gene.src as usize % sources,
                    dst_kind: gene.dst_kind,
                    dst: gene.dst as usize % sinks,
                    weight: gene.weight,
                },
            )
        }
    }
}

/// The connections that the first `n` genes stand for, in the order of the
/// genes.
pub open spec fn decode_upto(genes: Seq<Gene>, n: int, shape: NsShape) -> Seq<Conn>
    decreases n,
{
    if n <= 0 {
        Seq::empty()
    } else {
        match Conn::decode_spec(genes[n - 1], shape) {
            Some(conn) => decode_upto(genes, n - 1, shape).push(conn),
            None => decode_upto(genes, n - 1, shape),
        }
    }
}

/// The bounded nonlinearity of the network. It is odd, linear with slope
/// `1 / UNIT` near zero (rounded towards zero) and saturates at `UNIT`.
pub open spec fn squash(sum: int) -> int {
    if sum >= 0 {
        if sum / (UNIT as int) > UNIT {
            UNIT as int
        } else {
            sum / (UNIT as int)
        }
    } else {
        if (-sum) / (UNIT as int) > UNIT {
            -(UNIT as int)
        } else {
            -((-sum) / (UNIT as int))
        }
    }
}

/// The place of the largest of the first `n` activations; of several largest
/// ones the first.
pub open spec fn argmax_upto(acts: Seq<i32>, n: int) -> int
    decreases n,
{
    if n <= 1 {
        0
    } else {
        let best: int = argmax_upto(acts, n - 1);
        if acts[n - 1] > acts[best] {
            n - 1
        } else {
            best
        }
    }
}

/// The action selected by the activations of the action nodes: that of the
/// node with the largest activation, the first of several, if that activation
/// exceeds the threshold; otherwise none.
pub open spec fn select_action(acts: Seq<i32>) -> Action {
    if acts.len() == 0 {
        Action::Stay
    } else {
        let best: int = argmax_upto(acts, acts.len() as int);
        if acts[best] > FIRE_THRESHOLD {
            Action::from_index_spec(best)
        } else {
            Action::Stay
        }
    }
}

/// The place that `argmax_upto` gives holds a largest activation, and every
/// earlier place holds a smaller one.
pub proof fn lemma_argmax(acts: Seq<i32>, n: int)
    requires
        1 <= n <= acts.len(),
    ensures
        0 <= argmax_upto(acts, n) < n,
        forall|j: int| 0 <= j < n ==> #[trigger] acts[j] <= acts[argmax_upto(acts, n)],
        forall|j: int|
            0 <= j < argmax_upto(acts, n) ==> #[trigger] acts[j] < acts[argmax_upto(acts, n)],
    decreases n,
{
    if n > 1 {
        lemma_argmax(acts, n - 1);
    }
}

/// A network as a mathematical value.
pub struct NsView {
    pub shape: NsShape,
    pub conns: Seq<Conn>,
}

impl NsView {
    /// Every connection joins two nodes of the shape and runs forward.
    pub open spec fn wf(self) -> bool {
        forall|i: int| 0 <= i < self.conns.len() ==> (#[trigger] self.conns[i]).fits(self.shape)
    }

    /// The network decoded from `genes`.
    pub open spec fn decode(genes: Seq<Gene>, shape: NsShape) -> NsView {
        NsView { shape, conns: decode_upto(genes, genes.len() as int, shape) }
    }

    /// What the connection `conn` adds to the input of the hidden node `h`.
    pub open spec fn hidden_term(conn: Conn, sensors: Seq<i32>, h: int) -> int {
        if conn.src_kind == SourceKind::Sensor && conn.dst_kind == SinkKind::Hidden && conn.dst
            == h {
            conn.weight * sensors[conn.src as int]
        } else {
            0
        }
    }

    /// The input of the hidden node `h` from the first `n` connections.
    pub open spec fn hidden_sum(self, n: int, sensors: Seq<i32>, h: int) -> int
        decreases n,
    {
        if n <= 0 {
            0
        } else {
            self.hidden_sum(n - 1, sensors, h) + Self::hidden_term(self.conns[n - 1], sensors, h)
        }
    }

    /// The activation of the hidden node `h`.
    pub open spec fn hidden_act(self, sensors: Seq<i32>, h: int) -> int {
        squash(self.hidden_sum(self.conns.len() as int, sensors, h))
    }

    /// What the connection `conn` adds to the input of the action node `a`.
    pub open spec fn action_term(self, conn: Conn, sensors: Seq<i32>, a: int) -> int {
        if conn.dst_kind == SinkKind::Action && conn.dst == a {
            match conn.src_kind {
                SourceKind::Sensor => conn.weight * sensors[conn.src as int],
                SourceKind::Hidden => conn.weight * self.hidden_act(sensors, conn.src as int),
            }
        } else {
            0
        }
    }

    /// The input of the action node `a` from the first `n` connections.
    pub open spec fn action_sum(self, n: int, sensors: Seq<i32>, a: int) -> int
        decreases n,
    {
        if n <= 0 {
            0
        } else {
            self.action_sum(n - 1, sensors, a) + self.action_term(self.conns[n - 1], sensors, a)
        }
    }

    /// The activation of the action node `a`.
    pub open spec fn action_act(self, sensors: Seq<i32>, a: int) -> int {
        squash(self.action_sum(self.conns.len() as int, sensors, a))
    }

    /// The activations of all action nodes.
    pub open spec fn outputs(self, sensors: Seq<i32>) -> Seq<i32> {
        Seq::new(self.shape.action_count as nat, |a: int| self.action_act(sensors, a) as i32)
    }

    /// The action that the network takes on the given sensor readings.
    pub open spec fn decide(self, sensors: Seq<i32>) -> Action {
        select_action(self.outputs(sensors))
    }
}

/// Every decoded connection fits the shape it was decoded against.
pub proof fn lemma_decode_fits(genes: Seq<Gene>, n: int, shape: NsShape)
    requires
        0 <= n <= genes.len(),
    ensures
        (NsView { shape, conns: decode_upto(genes, n, shape) }).wf(),
        decode_upto(genes, n, shape).len() <= n,
    decreases n,
{
    let conns = decode_upto(genes, n, shape);
    if n > 0 {
        lemma_decode_fits(genes, n - 1, shape);
        let prev = NsView { shape, conns: decode_upto(genes, n - 1, shape) };
        assert forall|i: int| 0 <= i < conns.len() implies (#[trigger] conns[i]).fits(shape) by {
            if i < prev.conns.len() {
                assert(prev.conns[i].fits(shape));
            }
        }
    }
}

/// The product of two 32-bit numbers is at most `TERM_BOUND` in size.
pub proof fn lemma_term_bound(a: int, b: int)
    requires
        -0x8000_0000 <= a <= 0x8000_0000,
        -0x8000_0000 <= b <= 0x8000_0000,
    ensures
        -TERM_BOUND <= a * b <= TERM_BOUND,
{
    assert(-0x4000_0000_0000_0000 <= a * b <= 0x4000_0000_0000_0000) by (nonlinear_arith)
        requires
            -0x8000_0000 <= a <= 0x8000_0000,
            -0x8000_0000 <= b <= 0x8000_0000,
    ;
}

/// The activation that belongs to the input `sum`.
pub fn squash_exec(sum: i128) -> (act: i32)
    ensures
        act == squash(sum as int),
        -UNIT <= act <= UNIT,
{
    let unit: i128 = UNIT as i128;
    if sum >= 0 {
        let q: i128 = sum / unit;
        if q > unit {
            UNIT
        } else {
            q as i32
        }
    } else if sum <= -(unit * unit) - unit {
        -UNIT
    } else {
        let q: i128 = (-sum) / unit;
        if q > unit {
            -UNIT
        } else {
            -(q as i32)
        }
    }
}

/// The action selected by the activations of the action nodes.
pub fn choose_action(acts: &Vec<i32>) -> (action: Action)
    ensures
        action == select_action(acts@),
{
    if acts.len() == 0 {
        return Action::Stay;
    }
    let mut best: usize = 0;
    let mut i: usize = 1;
    while i < acts.len()
        invariant
            1 <= i <= acts@.len(),
            best == argmax_upto(acts@, i as int),
            best < i,
        decreases acts@.len() - i,
    {
        if acts[i] > acts[best] {
            best = i;
        }
        i = i + 1;
    }
    if acts[best] > FIRE_THRESHOLD {
        Action::from_index(best)
    } else {
        Action::Stay
    }
}

/// A neural controller: the network decoded from a genome.
#[derive(Clone, Debug)]
pub struct NS {
    shape: NsShape,
    conns: Vec<Conn>,
}

impl View for NS {
    type V = NsView;

    closed spec fn view(&self) -> NsView {
        NsView { shape: self.shape, conns: self.conns@ }
    }
}

impl NS {
    /// Every connection joins two nodes of the shape and runs forward.
    pub open spec fn wf(&self) -> bool {
        self@.wf()
    }

    /// Decodes `genome` against `shape`. Every genome decodes.
    pub fn decode(genome: &Genome, shape: NsShape) -> (ns: NS)
        ensures
            ns.wf(),
            ns@ == NsView::decode(genome@, shape),
    {
        let mut conns: Vec<Conn> = Vec::new();
        let mut i: usize = 0;
        while i < genome.len()
            invariant
                i <= genome@.len(),
                conns@ == decode_upto(genome@, i as int, shape),
            decreases genome@.len() - i,
        {
            match Conn::decode(genome.gene(i), shape) {
                Some(conn) => {
                    conns.push(conn);
                },
                None => {},
            }
            i = i + 1;
        }
        proof {
            lemma_decode_fits(genome@, genome@.len() as int, shape);
        }
        NS { shape, conns }
    }

    /// The shape of the network.
    pub fn shape(&self) -> (shape: NsShape)
        ensures
            shape == self@.shape,
    {
        self.shape
    }

    /// The number of connections.
    pub fn conn_count(&self) -> (n: usize)
        ensures
            n == self@.conns.len(),
    {
        self.conns.len()
    }

    /// The activations of the hidden nodes on the given sensor readings.
    pub fn eval_hidden(&self, sensors: &Vec<i32>) -> (hidden: Vec<i32>)
        requires
            self.wf(),
            sensors@.len() == self@.shape.sensor_count,
        ensures
            hidden@.len() == self@.shape.hidden_count,
            forall|h: int|
                0 <= h < hidden@.len() ==> #[trigger] hidden@[h] == self@.hidden_act(sensors@, h),
    {
        let mut acc: Vec<i128> = Vec::new();
        let mut k: usize = 0;
        while k < self.shape.hidden_count
            invariant
                k <= self.shape.hidden_count,
                acc@.len() == k,
                forall|h: int| 0 <= h < k ==> #[trigger] acc@[h] == 0,
            decreases self.shape.hidden_count - k,
        {
            acc.push(0);
            k = k + 1;
        }
        let mut i: usize = 0;
        while i < self.conns.len()
            invariant
                self.wf(),
                sensors@.len() == self@.shape.sensor_count,
                i <= self.conns@.len(),
                acc@.len() == self.shape.hidden_count,
                forall|h: int|
                    0 <= h < acc@.len() ==> {
                        &&& #[trigger] acc@[h] == self@.hidden_sum(i as int, sensors@, h)
                        &&& -(i * TERM_BOUND) <= acc@[h] <= i * TERM_BOUND
                    },
            decreases self.conns@.len() - i,
        {
            let conn: Conn = self.conns[i];
            assert(self@.conns[i as int].fits(self@.shape));
            match (conn.src_kind, conn.dst_kind) {
                (SourceKind::Sensor, SinkKind::Hidden) => {
                    proof {
                        lemma_term_bound(conn.weight as int, sensors@[conn.src as int] as int);
                    }
                    let term: i128 = (conn.weight as i128) * (sensors[conn.src] as i128);
                    let sum: i128 = acc[conn.dst] + term;
                    acc.set(conn.dst, sum);
                },
                _ => {},
            }
            i = i + 1;
        }
        let mut hidden: Vec<i32> = Vec::new();
        let mut h: usize = 0;
        while h < acc.len()
            invariant
                h <= acc@.len(),
                acc@.len() == self.shape.hidden_count,
                hidden@.len() == h,
                forall|j: int|
                    0 <= j < acc@.len() ==> #[trigger] acc@[j] == self@.hidden_sum(
                        self@.conns.len() as int,
                        sensors@,
                        j,
                    ),
                forall|j: int|
                    0 <= j < h ==> #[trigger] hidden@[j] == self@.hidden_act(sensors@, j),
            decreases acc@.len() - h,
        {
            hidden.push(squash_exec(acc[h]));
            h = h + 1;
        }
        hidden
    }

    /// The activations of the action nodes on the given sensor readings.
    pub fn eval(&self, sensors: &Vec<i32>) -> (outputs: Vec<i32>)
        requires
            self.wf(),
            sensors@.len() == self@.shape.sensor_count,
        ensures
            outputs@ == self@.outputs(sensors@),
            forall|a: int| 0 <= a < outputs@.len() ==> -UNIT <= #[trigger] outputs@[a] <= UNIT,
    {
        let hidden: Vec<i32> = self.eval_hidden(sensors);
        let mut acc: Vec<i128> = Vec::new();
        let mut k: usize = 0;
        while k < self.shape.action_count
            invariant
                k <= self.shape.action_count,
                acc@.len() == k,
                forall|a: int| 0 <= a < k ==> #[trigger] acc@[a] == 0,
            decreases self.shape.action_count - k,
        {
            acc.push(0);
            k = k + 1;
        }
        let mut i: usize = 0;
        while i < self.conns.len()
            invariant
                self.wf(),
                sensors@.len() == self@.shape.sensor_count,
                hidden@.len() == self@.shape.hidden_count,
                forall|h: int|
                    0 <= h < hidden@.len() ==> #[trigger] hidden@[h] == self@.hidden_act(
                        sensors@,
                        h,
                    ),
                i <= self.conns@.len(),
                acc@.len() == self.shape.action_count,
                forall|a: int|
                    0 <= a < acc@.len() ==> {
                        &&& #[trigger] acc@[a] == self@.action_sum(i as int, sensors@, a)
                        &&& -(i * TERM_BOUND) <= acc@[a] <= i * TERM_BOUND
                    },
            decreases self.conns@.len() - i,
        {
            let conn: Conn = self.conns[i];
            assert(self@.conns[i as int].fits(self@.shape));
            match conn.dst_kind {
                SinkKind::Action => {
                    let input: i32 = match conn.src_kind {
                        SourceKind::Sensor => sensors[conn.src],
                        SourceKind::Hidden => hidden[conn.src],
                    };
                    proof {
                        lemma_term_bound(conn.weight as int, input as int);
                    }
                    let term: i128 = (conn.weight as i128) * (input as i128);
                    let sum: i128 = acc[conn.dst] + term;
                    acc.set(conn.dst, sum);
                },
                SinkKind::Hidden => {},
            }
            i = i + 1;
        }
        let mut outputs: Vec<i32> = Vec::new();
        let mut a: usize = 0;
        while a < acc.len()
            invariant
                a <= acc@.len(),
                acc@.len() == self.shape.action_count,
                outputs@.len() == a,
                forall|j: int|
                    0 <= j < acc@.len() ==> #[trigger] acc@[j] == self@.action_sum(
                        self@.conns.len() as int,
                        sensors@,
                        j,
                    ),
                forall|j: int|
                    0 <= j < a ==> #[trigger] outputs@[j] == self@.action_act(sensors@, j) && -UNIT
                        <= outputs@[j] <= UNIT,
            decreases acc@.len() - a,
        {
            outputs.push(squash_exec(acc[a]));
            a = a + 1;
        }
        assert(outputs@ =~= self@.outputs(sensors@));
        outputs
    }

    /// The action that the network takes on the given sensor readings.
    pub fn decide(&self, sensors: &Vec<i32>) -> (action: Action)
        requires
            self.wf(),
            sensors@.len() == self@.shape.sensor_count,
        ensures
            action == self@.decide(sensors@),
    {
        let outputs: Vec<i32> = self.eval(sensors);
        choose_action(&outputs)
    }
}

/// Two networks whose first `n` connections are the same give every hidden
/// node the same input from them.
pub proof fn lemma_hidden_prefix(v: NsView, w: NsView, n: int, sensors: Seq<i32>, h: int)
    requires
        0 <= n <= v.conns.len(),
        n <= w.conns.len(),
        forall|k: int| 0 <= k < n ==> v.conns[k] == w.conns[k],
    ensures
        v.hidden_sum(n, sensors, h) == w.hidden_sum(n, sensors, h),
    decreases n,
{
    if n > 0 {
        lemma_hidden_prefix(v, w, n - 1, sensors, h);
    }
}

/// Two networks whose first `n` connections are the same, and whose hidden
/// nodes have the same activations, give every action node the same input
/// from those connections.
pub proof fn lemma_action_prefix(v: NsView, w: NsView, n: int, sensors: Seq<i32>, a: int)
    requires
        0 <= n <= v.conns.len(),
        n <= w.conns.len(),
        forall|k: int| 0 <= k < n ==> v.conns[k] == w.conns[k],
        forall|h: int| v.hidden_act(sensors, h) == w.hidden_act(sensors, h),
    ensures
        v.action_sum(n, sensors, a) == w.action_sum(n, sensors, a),
    decreases n,
{
    if n > 0 {
        lemma_action_prefix(v, w, n - 1, sensors, a);
    }
}

/// Weights on the same edge add up: two connections between the same two
/// nodes act as one connection whose weight is the sum of theirs.
pub proof fn lemma_weights_add_up(base: NsView, first: Conn, second: Conn, sensors: Seq<i32>)
    requires
        first.src_kind == second.src_kind,
        first.src == second.src,
        first.dst_kind == second.dst_kind,
        first.dst == second.dst,
        i32::MIN <= first.weight + second.weight <= i32::MAX,
    ensures
        ({
            let split = NsView { conns: base.conns.push(first).push(second), ..base };
            let joined = NsView {
                conns: base.conns.push(
                    Conn { weight: (first.weight + second.weight) as i32, ..first },
                ),
                ..base
            };
            &&& split.outputs(sensors) == joined.outputs(sensors)
            &&& split.decide(sensors) == joined.decide(sensors)
        }),
{
    let n: int = base.conns.len() as int;
    let sum = Conn { weight: (first.weight + second.weight) as i32, ..first };
    let split = NsView { conns: base.conns.push(first).push(second), ..base };
    let joined = NsView { conns: base.conns.push(sum), ..base };
    assert forall|h: int| split.hidden_act(sensors, h) == joined.hidden_act(sensors, h) by {
        lemma_hidden_prefix(split, base, n, sensors, h);
        lemma_hidden_prefix(joined, base, n, sensors, h);
        let x: int = sensors[first.src as int] as int;
        assert((first.weight + second.weight) * x == first.weight * x + second.weight * x)
            by (nonlinear_arith);
        assert(split.hidden_sum(n + 2, sensors, h) == split.hidden_sum(n + 1, sensors, h)
            + NsView::hidden_term(second, sensors, h));
        assert(split.hidden_sum(n + 1, sensors, h) == split.hidden_sum(n, sensors, h)
            + NsView::hidden_term(first, sensors, h));
        assert(joined.hidden_sum(n + 1, sensors, h) == joined.hidden_sum(n, sensors, h)
            + NsView::hidden_term(sum, sensors, h));
    }
    assert forall|a: int| split.action_act(sensors, a) == joined.action_act(sensors, a) by {
        lemma_action_prefix(split, joined, n, sensors, a);
        let x: int = match first.src_kind {
            SourceKind::Sensor => sensors[first.src as int] as int,
            SourceKind::Hidden => split.hidden_act(sensors, first.src as int),
        };
        assert((first.weight + second.weight) * x == first.weight * x + second.weight * x)
            by (nonlinear_arith);
        assert(split.action_sum(n + 2, sensors, a) == split.action_sum(n + 1, sensors, a)
            + split.action_term(second, sensors, a));
        assert(split.action_sum(n + 1, sensors, a) == split.action_sum(n, sensors, a)
            + split.action_term(first, sensors, a));
        assert(joined.action_sum(n + 1, sensors, a) == joined.action_sum(n, sensors, a)
            + joined.action_term(sum, sensors, a));
    }
    assert(split.outputs(sensors) =~= joined.outputs(sensors));
}

/// The order of two neighbouring connections does not matter: the network
/// with the two exchanged gives the same activations and takes the same
/// action.
pub proof fn lemma_order_is_free(v: NsView, k: int, sensors: Seq<i32>)
    requires
        0 <= k,
        k + 1 < v.conns.len(),
    ensures
        ({
            let swapped = NsView {
                conns: v.conns.update(k, v.conns[k + 1]).update(k + 1, v.conns[k]),
                ..v
            };
            &&& swapped.outputs(sensors) == v.outputs(sensors)
            &&& swapped.decide(sensors) == v.decide(sensors)
        }),
{
    let n: int = v.conns.len() as int;
    let swapped = NsView {
        conns: v.conns.update(k, v.conns[k + 1]).update(k + 1, v.conns[k]),
        ..v
    };
    assert forall|h: int| swapped.hidden_act(sensors, h) == v.hidden_act(sensors, h) by {
        lemma_hidden_prefix(swapped, v, k, sensors, h);
        assert(swapped.hidden_sum(k + 2, sensors, h) == swapped.hidden_sum(k + 1, sensors, h)
            + NsView::hidden_term(v.conns[k], sensors, h));
        assert(swapped.hidden_sum(k + 1, sensors, h) == swapped.hidden_sum(k, sensors, h)
            + NsView::hidden_term(v.conns[k + 1], sensors, h));
        assert(v.hidden_sum(k + 2, sensors, h) == v.hidden_sum(k + 1, sensors, h)
            + NsView::hidden_term(v.conns[k + 1], sensors, h));
        assert(v.hidden_sum(k + 1, sensors, h) == v.hidden_sum(k, sensors, h)
            + NsView::hidden_term(v.conns[k], sensors, h));
        lemma_hidden_suffix(swapped, v, k + 2, n, sensors, h);
    }
    assert forall|a: int| swapped.action_act(sensors, a) == v.action_act(sensors, a) by {
        lemma_action_prefix(swapped, v, k, sensors, a);
        assert(swapped.action_sum(k + 2, sensors, a) == swapped.action_sum(k + 1, sensors, a)
            + swapped.action_term(v.conns[k], sensors, a));
        assert(swapped.action_sum(k + 1, sensors, a) == swapped.action_sum(k, sensors, a)
            + swapped.action_term(v.conns[k + 1], sensors, a));
        assert(v.action_sum(k + 2, sensors, a) == v.action_sum(k + 1, sensors, a) + v.action_term(
            v.conns[k + 1],
            sensors,
            a,
        ));
        assert(v.action_sum(k + 1, sensors, a) == v.action_sum(k, sensors, a) + v.action_term(
            v.conns[k],
            sensors,
            a,
        ));
        lemma_action_suffix(swapped, v, k + 2, n, sensors, a);
    }
    assert(swapped.outputs(sensors) =~= v.outputs(sensors));
}

/// Two networks that give a hidden node the same input from their first `m`
/// connections, and have the same connections from there to place `n`, give
/// it the same input from their first `n` connections.
pub proof fn lemma_hidden_suffix(v: NsView, w: NsView, m: int, n: int, sensors: Seq<i32>, h: int)
    requires
        0 <= m <= n <= v.conns.len(),
        n <= w.conns.len(),
        v.hidden_sum(m, sensors, h) == w.hidden_sum(m, sensors, h),
        forall|k: int| m <= k < n ==> v.conns[k] == w.conns[k],
    ensures
        v.hidden_sum(n, sensors, h) == w.hidden_sum(n, sensors, h),
    decreases n - m,
{
    if m < n {
        lemma_hidden_suffix(v, w, m, n - 1, sensors, h);
    }
}

/// Two networks whose hidden nodes have the same activations, that give an
/// action node the same input from their first `m` connections, and have the
/// same connections from there to place `n`, give it the same input from
/// their first `n` connections.
pub proof fn lemma_action_suffix(v: NsView, w: NsView, m: int, n: int, sensors: Seq<i32>, a: int)
    requires
        0 <= m <= n <= v.conns.len(),
        n <= w.conns.len(),
        v.action_sum(m, sensors, a) == w.action_sum(m, sensors, a),
        forall|k: int| m <= k < n ==> v.conns[k] == w.conns[k],
        forall|h: int| v.hidden_act(sensors, h) == w.hidden_act(sensors, h),
    ensures
        v.action_sum(n, sensors, a) == w.action_sum(n, sensors, a),
    decreases n - m,
{
    if m < n {
        lemma_action_suffix(v, w, m, n - 1, sensors, a);
    }
}

/// Two controllers decoded from the same genome against the same shape take
/// the same action on the same sensor readings.
pub proof fn lemma_decide_deterministic(
    first: NsView,
    second: NsView,
    genes: Seq<Gene>,
    shape: NsShape,
    sensors: Seq<i32>,
)
    requires
        first == NsView::decode(genes, shape),
        second == NsView::decode(genes, shape),
    ensures
        first.wf(),
        first.outputs(sensors) == second.outputs(sensors),
        first.decide(sensors) == second.decide(sensors),
{
    lemma_decode_fits(genes, genes.len() as int, shape);
}

} // verus!
