//! The connections of an engine.
use vstd::prelude::*;

use crate::tcp_conn::TcpConn;

verus! {

/// Names a connection; 0 names none.
pub type ConnHandle = u32;

/// Addresses and ports of a connection, in host byte order.
#[derive(Debug, Clone, Copy, PartialEq, Eq, Structural)]
pub struct FourTuple {
    pub local_ip: u32,
    pub local_port: u16,
    pub peer_ip: u32,
    pub peer_port: u16,
}

/// The connections, by handle. Handle `h` is slot `h - 1`.
pub struct FlowTable {
    pub slots: Vec<Option<TcpConn>>,
    pub max: u32,
}

impl View for FlowTable {
    type V = Map<ConnHandle, TcpConn>;

    open spec fn view(&self) -> Map<ConnHandle, TcpConn> {
        Map::new(
            |h: ConnHandle|
                1 <= h <= self.slots@.len() && self.slots@[h as int - 1] is Some,
            |h: ConnHandle| self.slots@[h as int - 1]->0,
        )
    }
}

impl FlowTable {
    /// The table keeps to its limit and every connection is well-formed.
    pub open spec fn wf(&self) -> bool {
        &&& self.slots@.len() <= self.max
        &&& forall|h: ConnHandle| #[trigger] self@.contains_key(h) ==> self@[h].wf()
    }

    /// Every handle is taken.
    pub open spec fn is_full(&self) -> bool {
        forall|h: ConnHandle| 1 <= h <= self.max ==> #[trigger] self@.contains_key(h)
    }

    /// An empty table for `max` connections.
    pub fn new(max: u32) -> (r: Self)
        ensures
            r.wf(),
            r.max == max,
            r@ == Map::<ConnHandle, TcpConn>::empty(),
    {
        let r = FlowTable { slots: Vec::new(), max };
        assert(r@ =~= Map::<ConnHandle, TcpConn>::empty());
        r
    }

    /// Adds a connection under a handle that none has; refuses when full.
    pub fn insert(&mut self, conn: TcpConn) -> (r: Option<ConnHandle>)
        requires
            old(self).wf(),
            conn.wf(),
        ensures
            final(self).wf(),
            final(self).max == old(self).max,
            r is None <==> old(self).is_full(),
            r is None ==> *final(self) == *old(self),
            r is Some ==> {
                &&& 1 <= r->0 <= old(self).max
                &&& !old(self)@.contains_key(r->0)
                &&& final(self)@ == old(self)@.insert(r->0, conn)
            },
    {
        let mut i: usize = 0;
        while i < self.slots.len()
            invariant
                *self == *old(self),
                self.wf(),
                conn.wf(),
                i <= self.slots@.len(),
                forall|k: int| 0 <= k < i ==> #[trigger] self.slots@[k] is Some,
            decreases self.slots@.len() - i,
        {
            if self.slots[i].is_none() {
                let h: u32 = (i + 1) as u32;
                assert(!self@.contains_key(h));
                self.slots.set(i, Some(conn));
                assert(self@ =~= old(self)@.insert(h, conn));
                return Some(h);
            }
            i += 1;
        }
        if self.slots.len() < self.max as usize {
            let h: u32 = (self.slots.len() + 1) as u32;
            assert(!self@.contains_key(h));
            self.slots.push(Some(conn));
            assert(self@ =~= old(self)@.insert(h, conn));
            Some(h)
        } else {
            assert forall|h: ConnHandle| 1 <= h <= self.max implies #[trigger] self@.contains_key(
                h,
            ) by {
                assert(self.slots@[h as int - 1] is Some);
            }
            None
        }
    }

    /// The connection under a handle.
    pub fn get(&self, h: ConnHandle) -> (r: Option<&TcpConn>)
        ensures
            match r {
                Some(c) => self@.contains_key(h) && *c == self@[h],
                None => !self@.contains_key(h),
            },
    {
        if h == 0 || h as usize > self.slots.len() {
            return None;
        }
        match &self.slots[h as usize - 1] {
            Some(c) => Some(c),
            None => None,
        }
    }

    /// The connection under a handle, to be changed.
    pub fn get_mut(&mut self, h: ConnHandle) -> (r: Option<&mut TcpConn>)
        ensures
            match r {
                Some(c) => {
                    &&& old(self)@.contains_key(h)
                    &&& *c == old(self)@[h]
                    &&& final(self)@ == old(self)@.insert(h, *final(c))
                    &&& final(self).max == old(self).max
                    &&& final(self).slots@.len() == old(self).slots@.len()
                },
                None => !old(self)@.contains_key(h) && *final(self) == *old(self),
            },
    {
        if h == 0 || h as usize > self.slots.len() {
            return None;
        }
        if self.slots[h as usize - 1].is_none() {
            return None;
        }
        match &mut self.slots[h as usize - 1] {
            Some(c) => Some(c),
            None => None,
        }
    }

    /// Removes the connection under a handle.
    pub fn remove(&mut self, h: ConnHandle)
        ensures
            final(self)@ == old(self)@.remove(h),
            final(self).max == old(self).max,
            old(self).wf() ==> final(self).wf(),
    {
        if h == 0 || h as usize > self.slots.len() {
            assert(self@ =~= old(self)@.remove(h));
            return;
        }
        self.slots.set(h as usize - 1, None);
        assert(self@ =~= old(self)@.remove(h));
    }

    /// The handles in use, in ascending order.
    pub fn handles(&self) -> (r: Vec<ConnHandle>)
        requires
            self.wf(),
        ensures
            forall|h: ConnHandle| #[trigger] r@.contains(h) <==> self@.contains_key(h),
            forall|i: int, j: int| 0 <= i < j < r@.len() ==> r@[i] < r@[j],
    {
        let mut out: Vec<ConnHandle> = Vec::new();
        let mut i: usize = 0;
        while i < self.slots.len()
            invariant
                i <= self.slots@.len(),
                self.slots@.len() <= self.max,
                forall|k: int|
                    0 <= k < out@.len() ==> 1 <= #[trigger] out@[k] <= i && self.slots@[out@[k] as int
                        - 1] is Some,
                forall|k: int|
                    0 <= k < i && #[trigger] self.slots@[k] is Some ==> out@.contains(
                        (k + 1) as u32,
                    ),
                forall|k: int, l: int| 0 <= k < l < out@.len() ==> out@[k] < out@[l],
            decreases self.slots@.len() - i,
        {
            let ghost before = out@;
            if self.slots[i].is_some() {
                let h: u32 = (i + 1) as u32;
                out.push(h);
                proof {
                    assert(out@[before.len() as int] == h);
                    assert forall|k: int|
                        0 <= k < i + 1 && #[trigger] self.slots@[k] is Some implies out@.contains(
                        (k + 1) as u32,
                    ) by {
                        if k < i {
                            assert(before.contains((k + 1) as u32));
                            let m = choose|m: int|
                                0 <= m < before.len() && before[m] == (k + 1) as u32;
                            assert(out@[m] == (k + 1) as u32);
                        }
                    }
                }
            }
            i += 1;
        }
        proof {
            assert forall|h: ConnHandle| #[trigger]
                out@.contains(h) <==> self@.contains_key(h) by {
                if self@.contains_key(h) {
                    assert(self.slots@[h as int - 1] is Some);
                }
                if out@.contains(h) {
                    let m = choose|m: int| 0 <= m < out@.len() && out@[m] == h;
                    assert(out@[m] == h);
                }
            }
        }
        out
    }

    /// The lowest handle whose connection has these addresses and ports.
    pub fn lookup(&self, tuple: &FourTuple) -> (r: Option<ConnHandle>)
        requires
            self.wf(),
        ensures
            match r {
                Some(h) => {
                    &&& self@.contains_key(h)
                    &&& self@[h].four_tuple == *tuple
                    &&& forall|k: ConnHandle| #[trigger]
                        self@.contains_key(k) && k < h ==> self@[k].four_tuple != *tuple
                },
                None => forall|k: ConnHandle| #[trigger]
                    self@.contains_key(k) ==> self@[k].four_tuple != *tuple,
            },
    {
        let mut i: usize = 0;
        while i < self.slots.len()
            invariant
                i <= self.slots@.len(),
                self.slots@.len() <= self.max,
                forall|k: ConnHandle| #[trigger]
                    self@.contains_key(k) && k <= i ==> self@[k].four_tuple != *tuple,
            decreases self.slots@.len() - i,
        {
            if let Some(c) = &self.slots[i] {
                if c.four_tuple == *tuple {
                    return Some((i + 1) as u32);
                }
            }
            i += 1;
        }
        None
    }
}

} // verus!
