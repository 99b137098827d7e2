//! I/O ports by number, and the bookkeeping that hands each port out once.
use vstd::prelude::*;
use arrayvec::ArrayVec;

verus! {

/// An I/O port. Only one instance of a port should exist at a time, so that
/// two drivers cannot clobber each other's writes.
#[derive(PartialEq, Eq, Structural, Debug)]
pub struct Port(pub u16);

impl Port {
    pub fn new(port: u16) -> (r: Self)
        ensures
            r.0 == port,
    {
        Port(port)
    }

    /// The port's number.
    pub fn number(&self) -> (r: u16)
        ensures
            r == self.0,
    {
        self.0
    }
}

/// The emulator's exit device, which no driver may claim.
pub const RESERVED_PORT: u16 = 0xF4;

/// Number of ports the manager can hand out.
pub const MAX_PORTS: usize = 32;

/// Declares `arrayvec::ArrayVec`, the fixed-capacity vector that records
/// the ports handed out; its contents are reached only through the
/// wrappers below.
#[verifier::external_type_specification]
#[verifier::external_body]
#[verifier::reject_recursive_types(T)]
pub struct ExArrayVec<T, const CAP: usize>(ArrayVec<T, CAP>);

/// The port numbers that a fixed-capacity vector of 32 port numbers holds,
/// in the order they were pushed.
pub uninterp spec fn port_numbers(v: ArrayVec<u16, 32>) -> Seq<u16>;

/// Relies on `ArrayVec::new`: the new vector is empty.
#[verifier::external_body]
fn ports_new() -> (r: ArrayVec<u16, 32>)
    ensures
        port_numbers(r) == Seq::<u16>::empty(),
{
    ArrayVec::new()
}

/// Relies on `ArrayVec::len`: the number of elements, never above the
/// capacity.
#[verifier::external_body]
fn ports_len(v: &ArrayVec<u16, 32>) -> (r: usize)
    ensures
        r == port_numbers(*v).len(),
        r <= MAX_PORTS,
{
    v.len()
}

/// Relies on `ArrayVec`'s dereference to a slice of its elements and on
/// `slice::contains`.
#[verifier::external_body]
fn ports_contains(v: &ArrayVec<u16, 32>, port: u16) -> (r: bool)
    ensures
        r == port_numbers(*v).contains(port),
{
    v.contains(&port)
}

/// Relies on `ArrayVec::push`: appends the element; it panics only when
/// the vector is full, which the precondition rules out.
#[verifier::external_body]
fn ports_push(v: &mut ArrayVec<u16, 32>, port: u16)
    requires
        port_numbers(*old(v)).len() < MAX_PORTS,
    ensures
        port_numbers(*final(v)) == port_numbers(*old(v)).push(port),
{
    v.push(port)
}

/// Hands out each I/O port at most once.
pub struct PortManager {
    requested_ports: ArrayVec<u16, 32>,
}

/// The `n` consecutive port numbers from `offset`.
pub open spec fn port_range(offset: int, n: int) -> Seq<u16> {
    Seq::new(n as nat, |i: int| (offset + i) as u16)
}

/// The `j`-th port from `offset` is among `taken`.
pub open spec fn taken_at(taken: Seq<u16>, offset: int, j: int) -> bool {
    taken.contains((offset + j) as u16)
}

/// Index of the first port of `[offset, offset + n)` that `taken` holds,
/// or `n` when it holds none of them.
pub open spec fn first_taken(taken: Seq<u16>, offset: int, n: int) -> int
    decreases n,
{
    if n <= 0 {
        0
    } else {
        let p = first_taken(taken, offset, n - 1);
        if p < n - 1 {
            p
        } else if taken_at(taken, offset, n - 1) {
            n - 1
        } else {
            n
        }
    }
}

/// A run of consecutive ports, handed out together.
pub struct PortSlice<const LEN: usize>(Vec<Port>);

impl<const LEN: usize> PortSlice<LEN> {
    /// The numbers of the ports, in order.
    pub closed spec fn numbers(&self) -> Seq<u16> {
        self.0@.map_values(|p: Port| p.0)
    }

    /// The number of the `i`-th port.
    pub fn port_number(&self, i: usize) -> (r: u16)
        requires
            i < self.numbers().len(),
        ensures
            r == self.numbers()[i as int],
    {
        self.0[i].0
    }

    pub fn len(&self) -> (r: usize)
        ensures
            r == self.numbers().len(),
    {
        self.0.len()
    }
}

impl PortManager {
    /// The ports handed out so far, in the order they were requested.
    pub closed spec fn requested(&self) -> Seq<u16> {
        port_numbers(self.requested_ports)
    }

    pub fn new() -> (r: Self)
        ensures
            r.requested() == Seq::<u16>::empty(),
    {
        PortManager { requested_ports: ports_new() }
    }

    /// How many ports were handed out.
    pub fn requested_count(&self) -> (r: usize)
        ensures
            r == self.requested().len(),
            r <= MAX_PORTS,
    {
        ports_len(&self.requested_ports)
    }

    /// Whether `port` was handed out.
    pub fn is_requested(&self, port: u16) -> (r: bool)
        ensures
            r == self.requested().contains(port),
    {
        ports_contains(&self.requested_ports, port)
    }

    /// The port `port`, unless it was handed out before. There is room for
    /// `MAX_PORTS` ports.
    pub fn request_port(&mut self, port: u16) -> (r: Option<Port>)
        requires
            port != RESERVED_PORT,
            old(self).requested().contains(port) || old(self).requested().len() < MAX_PORTS,
        ensures
            old(self).requested().contains(port) ==> r.is_none() && final(self).requested()
                == old(self).requested(),
            !old(self).requested().contains(port) ==> r == Some(Port(port)) && final(self).requested()
                == old(self).requested().push(port),
    {
        if !ports_contains(&self.requested_ports, port) {
            ports_push(&mut self.requested_ports, port);
            Some(Port::new(port))
        } else {
            None
        }
    }

    /// The `LEN` ports from `offset` on, unless one of them was handed out
    /// before; the ports of the range below that one stay handed out.
    pub fn request_range<const LEN: usize>(&mut self, offset: u16) -> (r: Option<PortSlice<LEN>>)
        requires
            offset + LEN <= 0xFFFF,
            !(offset <= RESERVED_PORT < offset + LEN),
            old(self).requested().len() + LEN <= MAX_PORTS,
        ensures
            ({
                let k = first_taken(old(self).requested(), offset as int, LEN as int);
                &&& final(self).requested() == old(self).requested() + port_range(offset as int, k)
                &&& match r {
                    Some(s) => k == LEN && s.numbers() == port_range(offset as int, LEN as int),
                    None => k < LEN,
                }
            }),
    {
        let ghost start = self.requested();
        let mut slice: Vec<Port> = Vec::new();
        let mut i: usize = 0;
        let ghost n = LEN as int;
        proof {
            lemma_first_taken_bounds(start, offset as int, n);
        }
        while i < LEN
            invariant
                i <= LEN,
                n == LEN,
                start == old(self).requested(),
                offset + LEN <= 0xFFFF,
                !(offset <= RESERVED_PORT < offset + LEN),
                start.len() + LEN <= MAX_PORTS,
                self.requested() == start + port_range(offset as int, i as int),
                slice@.map_values(|p: Port| p.0) == port_range(offset as int, i as int),
                forall|j: int| 0 <= j < i ==> !#[trigger] taken_at(start, offset as int, j),
            decreases LEN - i,
        {
            let port = offset + i as u16;
            assert(!(start + port_range(offset as int, i as int)).contains(port) <==> !start.contains(
                port,
            )) by {
                lemma_range_distinct(start, offset as int, i as int, port);
            }
            match self.request_port(port) {
                Some(p) => {
                    slice.push(p);
                    assert(port_range(offset as int, i + 1) =~= port_range(offset as int, i as int).push(
                        port,
                    ));
                    assert(slice@.map_values(|p: Port| p.0) =~= port_range(offset as int, i + 1));
                    assert(self.requested() =~= start + port_range(offset as int, i + 1));
                },
                None => {
                    proof {
                        lemma_first_taken_is(start, offset as int, n, i as int);
                    }
                    return None;
                },
            }
            i = i + 1;
        }
        proof {
            lemma_first_taken_none(start, offset as int, n);
        }
        Some(PortSlice(slice))
    }
}

proof fn lemma_range_distinct(start: Seq<u16>, offset: int, i: int, port: u16)
    requires
        0 <= i,
        offset + i <= 0xFFFF,
        port == offset + i,
        0 <= offset,
    ensures
        (start + port_range(offset, i)).contains(port) <==> start.contains(port),
{
    let s = start + port_range(offset, i);
    if s.contains(port) && !start.contains(port) {
        let j = choose|j: int| 0 <= j < s.len() && s[j] == port;
        if j < start.len() {
            assert(start[j] == port);
        } else {
            assert(s[j] == (offset + (j - start.len())) as u16);
        }
    }
    if start.contains(port) {
        let j = choose|j: int| 0 <= j < start.len() && start[j] == port;
        assert(s[j] == port);
    }
}

proof fn lemma_first_taken_bounds(taken: Seq<u16>, offset: int, n: int)
    ensures
        n >= 0 ==> 0 <= first_taken(taken, offset, n) <= n,
    decreases n,
{
    if n > 0 {
        lemma_first_taken_bounds(taken, offset, n - 1);
    }
}

proof fn lemma_first_taken_none(taken: Seq<u16>, offset: int, n: int)
    requires
        n >= 0,
        forall|j: int| 0 <= j < n ==> !#[trigger] taken_at(taken, offset, j),
    ensures
        first_taken(taken, offset, n) == n,
    decreases n,
{
    if n > 0 {
        assert(!taken_at(taken, offset, n - 1));
        lemma_first_taken_none(taken, offset, n - 1);
    }
}

proof fn lemma_first_taken_is(taken: Seq<u16>, offset: int, n: int, k: int)
    requires
        0 <= k < n,
        taken.contains((offset + k) as u16),
        forall|j: int| 0 <= j < k ==> !#[trigger] taken_at(taken, offset, j),
    ensures
        first_taken(taken, offset, n) == k,
    decreases n,
{
    if n - 1 == k {
        lemma_first_taken_none(taken, offset, k);
        assert(taken_at(taken, offset, k));
    } else {
        lemma_first_taken_is(taken, offset, n - 1, k);
    }
}

} // verus!
