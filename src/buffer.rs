//! The short-term FIFO buffer of interactions.
//!
//! Every pushed interaction gets the next value of a 64-bit sequence; the
//! sequence value, written big-endian, is its key in durable storage, so the
//! lexicographic order of keys is their numeric order.
use vstd::prelude::*;
use crate::error::Error;
use crate::interaction::{Interaction, InteractionView};

verus! {

/// The value of a big-endian byte string.
pub open spec fn be_value(s: Seq<u8>) -> nat
    decreases s.len(),
{
    if s.len() == 0 {
        0
    } else {
        be_value(s.drop_last()) * 256 + s.last() as nat
    }
}

/// The 8-byte big-endian key of a sequence value.
pub fn key_from_counter(counter: u64) -> (r: [u8; 8])
    ensures
        r@.len() == 8,
        be_value(r@) == counter,
{
    let c0 = counter;
    let b7 = (c0 % 256) as u8;
    let c1 = c0 / 256;
    let b6 = (c1 % 256) as u8;
    let c2 = c1 / 256;
    let b5 = (c2 % 256) as u8;
    let c3 = c2 / 256;
    let b4 = (c3 % 256) as u8;
    let c4 = c3 / 256;
    let b3 = (c4 % 256) as u8;
    let c5 = c4 / 256;
    let b2 = (c5 % 256) as u8;
    let c6 = c5 / 256;
    let b1 = (c6 % 256) as u8;
    let c7 = c6 / 256;
    let b0 = c7 as u8;
    assert(c7 < 256);
    let r = [b0, b1, b2, b3, b4, b5, b6, b7];
    proof {
        let s = r@;
        assert(s.len() == 8);
        reveal_with_fuel(be_value, 9);
        assert(s.take(1).drop_last() =~= s.take(0));
        assert(s.take(2).drop_last() =~= s.take(1));
        assert(s.take(3).drop_last() =~= s.take(2));
        assert(s.take(4).drop_last() =~= s.take(3));
        assert(s.take(5).drop_last() =~= s.take(4));
        assert(s.take(6).drop_last() =~= s.take(5));
        assert(s.take(7).drop_last() =~= s.take(6));
        assert(s.take(8).drop_last() =~= s.take(7));
        assert(s.take(8) =~= s);
        assert(be_value(s.take(1)) == c7);
        assert(be_value(s.take(2)) == c6);
        assert(be_value(s.take(3)) == c5);
        assert(be_value(s.take(4)) == c4);
        assert(be_value(s.take(5)) == c3);
        assert(be_value(s.take(6)) == c2);
        assert(be_value(s.take(7)) == c1);
        assert(be_value(s.take(8)) == c0);
    }
    r
}


pub open spec fn pow256(n: nat) -> nat
    decreases n,
{
    if n == 0 {
        1
    } else {
        pow256((n - 1) as nat) * 256
    }
}

/// The sequence value of an 8-byte big-endian key; `None` for a key of
/// another length.
pub fn counter_from_key(key: &[u8]) -> (r: Option<u64>)
    ensures
        r is Some <==> key@.len() == 8,
        r matches Some(c) ==> c == be_value(key@),
{
    if key.len() != 8 {
        return None;
    }
    let mut acc: u64 = 0;
    let mut i: usize = 0;
    while i < 8
        invariant
            key@.len() == 8,
            i <= 8,
            acc == be_value(key@.take(i as int)),
            acc < pow256(i as nat),
        decreases 8 - i,
    {
        proof {
            assert(key@.take(i + 1).drop_last() =~= key@.take(i as int));
            assert(pow256((i + 1) as nat) == pow256(i as nat) * 256);
            reveal_with_fuel(pow256, 9);
            assert(pow256(i as nat) <= pow256(7));
            assert(acc * 256 + key@[i as int] < pow256((i + 1) as nat)) by (nonlinear_arith)
                requires
                    acc < pow256(i as nat),
                    key@[i as int] < 256,
                    pow256((i + 1) as nat) == pow256(i as nat) * 256,
            ;
            assert(pow256(8) == 0x1_0000_0000_0000_0000);
            lemma_pow256_mono(i as nat + 1, 8);
        }
        acc = acc * 256 + key[i] as u64;
        i = i + 1;
    }
    assert(key@.take(8) =~= key@);
    Some(acc)
}

proof fn lemma_pow256_mono(a: nat, b: nat)
    requires
        a <= b,
    ensures
        pow256(a) <= pow256(b),
    decreases b - a,
{
    if a < b {
        lemma_pow256_mono(a, (b - 1) as nat);
        assert(pow256(b) == pow256((b - 1) as nat) * 256);
    }
}

/// The recovered `(write, read)` counters of a store whose smallest and
/// largest keys decode to `first` and `last`: the write counter follows the
/// last key, the read cursor is the first key, and an empty store gives
/// zero for both. Fails when the last key is the largest sequence value.
pub fn recover_counters(first: Option<u64>, last: Option<u64>) -> (r: Result<(u64, u64), Error>)
    ensures
        r is Err <==> last == Some(u64::MAX),
        r matches Ok(c) ==> c.0 == (match last {
            Some(l) => l + 1,
            None => 0,
        }) && c.1 == (match first {
            Some(f) => f,
            None => 0,
        }),
{
    let write = match last {
        Some(l) => {
            if l == u64::MAX {
                return Err(Error::Internal { message: String::from_str("sequence exhausted") });
            }
            l + 1
        },
        None => 0,
    };
    let read = match first {
        Some(f) => f,
        None => 0,
    };
    Ok((write, read))
}

/// Entries read back from storage can be recovered: as many keys as
/// interactions, keys strictly ascending, the last key below the largest
/// sequence value.
pub open spec fn recoverable(keys: Seq<u64>, n: nat) -> bool {
    &&& keys.len() == n
    &&& forall|i: int, j: int| 0 <= i < j < keys.len() ==> keys[i] < keys[j]
    &&& keys.len() > 0 ==> keys.last() < u64::MAX
}

/// The mathematical value of a [`Buffer`].
pub struct BufferModel {
    /// Sequence values of the queued interactions, oldest first.
    pub keys: Seq<u64>,
    /// The queued interactions, oldest first.
    pub items: Seq<InteractionView>,
    /// The next sequence value to assign.
    pub write_counter: u64,
    /// The sequence value of the oldest interaction.
    pub read_counter: u64,
}

impl BufferModel {
    pub open spec fn wf(self) -> bool {
        &&& self.keys.len() == self.items.len()
        &&& forall|i: int, j: int| 0 <= i < j < self.keys.len() ==> self.keys[i] < self.keys[j]
        &&& forall|i: int| 0 <= i < self.keys.len() ==> self.keys[i] < self.write_counter
        &&& self.keys.len() > 0 ==> self.read_counter == self.keys[0]
    }
}

pub open spec fn items_view(v: Seq<Interaction>) -> Seq<InteractionView> {
    v.map_values(|i: Interaction| i@)
}

/// The ordered queue of interactions awaiting digestion.
pub struct Buffer {
    keys: Vec<u64>,
    items: Vec<Interaction>,
    write_counter: u64,
    read_counter: u64,
}

impl View for Buffer {
    type V = BufferModel;

    closed spec fn view(&self) -> BufferModel {
        BufferModel {
            keys: self.keys@,
            items: items_view(self.items@),
            write_counter: self.write_counter,
            read_counter: self.read_counter,
        }
    }
}

fn copy_keys(v: &Vec<u64>, n: usize) -> (r: Vec<u64>)
    requires
        n <= v@.len(),
    ensures
        r@ == v@.take(n as int),
{
    let mut r: Vec<u64> = Vec::new();
    let mut i: usize = 0;
    while i < n
        invariant
            n <= v@.len(),
            i <= n,
            r@ == v@.take(i as int),
        decreases n - i,
    {
        r.push(v[i]);
        proof {
            assert(r@ =~= v@.take(i + 1));
        }
        i = i + 1;
    }
    r
}

impl Buffer {
    /// An empty buffer with both counters at zero.
    pub fn new() -> (r: Self)
        ensures
            r@.wf(),
            r@.items.len() == 0,
            r@.write_counter == 0,
            r@.read_counter == 0,
    {
        Buffer { keys: Vec::new(), items: Vec::new(), write_counter: 0, read_counter: 0 }
    }

    /// Rebuilds a buffer from the `(key, interaction)` pairs read back from
    /// durable storage in key order. Fails when the two lists differ in
    /// length, when the keys do not strictly ascend, or when the last key
    /// is the largest sequence value.
    pub fn recover(keys: Vec<u64>, items: Vec<Interaction>) -> (r: Result<Self, Error>)
        ensures
            r is Ok <==> recoverable(keys@, items@.len()),
            r matches Ok(b) ==> b@.wf() && b@.keys == keys@ && b@.items == items_view(items@) && (
            keys@.len() == 0 ==> b@.write_counter == 0 && b@.read_counter == 0) && (keys@.len() > 0
                ==> b@.write_counter == keys@.last() + 1 && b@.read_counter == keys@[0]),
    {
        if keys.len() != items.len() {
            return Err(Error::Internal { message: String::from_str("keys and values differ in number") });
        }
        let mut i: usize = 1;
        while i < keys.len()
            invariant
                1 <= i || keys@.len() == 0,
                forall|a: int, b: int| 0 <= a < b < i && b < keys@.len() ==> keys@[a] < keys@[b],
            decreases keys.len() - i,
        {
            if keys[i - 1] >= keys[i] {
                return Err(Error::Internal { message: String::from_str("keys out of order") });
            }
            proof {
                assert forall|a: int, b: int| 0 <= a < b < i + 1 && b < keys@.len() implies keys@[a]
                    < keys@[b] by {
                    if b == i && a < i - 1 {
                        assert(keys@[a] < keys@[i - 1]);
                    }
                }
            }
            i = i + 1;
        }
        let n = keys.len();
        let first = if n > 0 { Some(keys[0]) } else { None };
        let last = if n > 0 { Some(keys[n - 1]) } else { None };
        match recover_counters(first, last) {
            Err(e) => Err(e),
            Ok((write_counter, read_counter)) => {
                let b = Buffer { keys, items, write_counter, read_counter };
                proof {
                    assert forall|a: int| 0 <= a < b@.keys.len() implies b@.keys[a] < b@.write_counter by {
                        if a < n - 1 {
                            assert(b@.keys[a] < b@.keys[n - 1]);
                        }
                    }
                }
                Ok(b)
            },
        }
    }

    /// The keys and interactions to persist, oldest first.
    pub fn keys(&self) -> (r: &Vec<u64>)
        ensures
            r@ == self@.keys,
    {
        &self.keys
    }

    /// The next sequence value to assign.
    pub fn write_counter(&self) -> (r: u64)
        ensures
            r == self@.write_counter,
    {
        self.write_counter
    }

    /// The sequence value of the oldest interaction.
    pub fn read_counter(&self) -> (r: u64)
        ensures
            r == self@.read_counter,
    {
        self.read_counter
    }

    /// Appends `interaction` under the next sequence value and returns that
    /// value. Fails, leaving the buffer unchanged, when the sequence is
    /// exhausted.
    pub fn push(&mut self, interaction: Interaction) -> (r: Result<u64, Error>)
        requires
            old(self)@.wf(),
        ensures
            final(self)@.wf(),
            r is Err <==> old(self)@.write_counter == u64::MAX,
            r is Err ==> final(self)@ == old(self)@,
            r matches Ok(k) ==> k == old(self)@.write_counter && final(self)@.keys == old(
                self,
            )@.keys.push(k) && final(self)@.items == old(self)@.items.push(interaction@)
                && final(self)@.write_counter == k + 1 && final(self)@.items == queue_step(
                old(self)@.items,
                QueueOp::Push(interaction@),
            ).1,
    {
        if self.write_counter == u64::MAX {
            return Err(Error::Internal { message: String::from_str("sequence exhausted") });
        }
        let k = self.write_counter;
        let ghost old_items = self@.items;
        if self.keys.len() == 0 {
            self.read_counter = k;
        }
        self.keys.push(k);
        self.items.push(interaction);
        self.write_counter = k + 1;
        proof {
            assert(self@.items =~= old_items.push(interaction@));
        }
        Ok(k)
    }

    /// Removes and returns the oldest `size` interactions (all of them when
    /// fewer are queued), oldest first.
    pub fn pop_batch(&mut self, size: usize) -> (r: Vec<Interaction>)
        requires
            old(self)@.wf(),
        ensures
            final(self)@.wf(),
            ({
                let n = if size < old(self)@.items.len() { size as int } else { old(self)@.items.len() as int };
                &&& items_view(r@) == old(self)@.items.take(n)
                &&& final(self)@.items == old(self)@.items.skip(n)
                &&& final(self)@.keys == old(self)@.keys.skip(n)
            }),
            final(self)@.write_counter == old(self)@.write_counter,
            size == 0 || old(self)@.items.len() == 0 ==> final(self)@ == old(self)@,
            r@.len() == (if size < old(self)@.items.len() { size as int } else { old(self)@.items.len() as int }),
            (items_view(r@), final(self)@.items) == queue_step(old(self)@.items, QueueOp::Pop(size as nat)),
    {
        let n = if size < self.items.len() { size } else { self.items.len() };
        if n == 0 {
            proof {
                assert(self@.items.take(0) =~= items_view(Seq::<Interaction>::empty()));
                assert(self@.items.skip(0) =~= self@.items);
                assert(self@.keys.skip(0) =~= self@.keys);
            }
            return Vec::new();
        }
        let ghost old_items = self.items@;
        let ghost old_keys = self.keys@;
        let mut head = self.items.split_off(n);
        std::mem::swap(&mut self.items, &mut head);
        let mut head_keys = self.keys.split_off(n);
        std::mem::swap(&mut self.keys, &mut head_keys);
        if self.keys.len() > 0 {
            self.read_counter = self.keys[0];
        } else {
            self.read_counter = self.write_counter;
        }
        proof {
            assert(head@ =~= old_items.take(n as int));
            assert(self.items@ =~= old_items.skip(n as int));
            assert(self.keys@ =~= old_keys.skip(n as int));
            assert(items_view(head@) =~= items_view(old_items).take(n as int));
            assert(self@.items =~= items_view(old_items).skip(n as int));
            assert forall|i: int, j: int| 0 <= i < j < self@.keys.len() implies self@.keys[i] < self@.keys[j] by {
                assert(old_keys[i + n] < old_keys[j + n]);
            }
        }
        head
    }

    /// The oldest `size` interactions (all of them when fewer are queued),
    /// oldest first, leaving the buffer as it is.
    pub fn peek(&self, size: usize) -> (r: Vec<Interaction>)
        ensures
            items_view(r@) == self@.items.take(
                if size < self@.items.len() { size as int } else { self@.items.len() as int },
            ),
            r@.len() == (if size < self@.items.len() { size as int } else { self@.items.len() as int }),
    {
        let n = if size < self.items.len() { size } else { self.items.len() };
        let mut r: Vec<Interaction> = Vec::new();
        let mut i: usize = 0;
        while i < n
            invariant
                n <= self.items@.len(),
                i <= n,
                r@.len() == i,
                forall|j: int| 0 <= j < i ==> r@[j]@ == self.items@[j]@,
            decreases n - i,
        {
            r.push(self.items[i].duplicate());
            i = i + 1;
        }
        assert(items_view(r@) =~= items_view(self.items@).take(n as int));
        r
    }

    /// The keys of the oldest `size` interactions, oldest first.
    pub fn peek_keys(&self, size: usize) -> (r: Vec<u64>)
        ensures
            r@ == self@.keys.take(
                if size < self@.keys.len() { size as int } else { self@.keys.len() as int },
            ),
    {
        let n = if size < self.keys.len() { size } else { self.keys.len() };
        copy_keys(&self.keys, n)
    }

    /// The number of queued interactions.
    pub fn len(&self) -> (r: usize)
        requires
            self@.wf(),
        ensures
            r == self@.items.len(),
    {
        self.items.len()
    }

    /// Whether no interaction is queued.
    pub fn is_empty(&self) -> (r: bool)
        requires
            self@.wf(),
        ensures
            r == (self@.items.len() == 0),
    {
        self.items.len() == 0
    }

    /// Removes every interaction and resets both counters.
    pub fn clear(&mut self)
        ensures
            final(self)@.wf(),
            final(self)@.items.len() == 0,
            final(self)@.write_counter == 0,
            final(self)@.read_counter == 0,
    {
        self.keys = Vec::new();
        self.items = Vec::new();
        self.write_counter = 0;
        self.read_counter = 0;
        proof {
            assert(self@.items =~= Seq::<InteractionView>::empty());
        }
    }
}


/// An operation on the queue: push one interaction, or pop a batch of at
/// most the given size.
pub enum QueueOp {
    Push(InteractionView),
    Pop(nat),
}

/// The batch an operation returns and the queue it leaves, as
/// [`Buffer::push`] and [`Buffer::pop_batch`] state them.
pub open spec fn queue_step(q: Seq<InteractionView>, op: QueueOp) -> (Seq<InteractionView>, Seq<InteractionView>) {
    match op {
        QueueOp::Push(i) => (Seq::empty(), q.push(i)),
        QueueOp::Pop(n) => {
            let k = if n < q.len() { n as int } else { q.len() as int };
            (q.take(k), q.skip(k))
        },
    }
}

/// Everything the operations pop, concatenated, and the queue they leave.
pub open spec fn replay(q: Seq<InteractionView>, ops: Seq<QueueOp>) -> (Seq<InteractionView>, Seq<InteractionView>)
    decreases ops.len(),
{
    if ops.len() == 0 {
        (Seq::empty(), q)
    } else {
        let prev = replay(q, ops.drop_last());
        let last = queue_step(prev.1, ops.last());
        (prev.0 + last.0, last.1)
    }
}

/// The interactions the operations push, in order.
pub open spec fn pushed(ops: Seq<QueueOp>) -> Seq<InteractionView>
    decreases ops.len(),
{
    if ops.len() == 0 {
        Seq::empty()
    } else {
        match ops.last() {
            QueueOp::Push(i) => pushed(ops.drop_last()).push(i),
            QueueOp::Pop(_) => pushed(ops.drop_last()),
        }
    }
}

/// No interaction is lost or returned twice: over any run of pushes and
/// pops, what the pops return followed by what stays queued is what was
/// queued at the start followed by what was pushed, in the same order; so
/// the multisets agree too.
pub proof fn lemma_queue_conserves(q: Seq<InteractionView>, ops: Seq<QueueOp>)
    ensures
        replay(q, ops).0 + replay(q, ops).1 == q + pushed(ops),
        replay(q, ops).0.to_multiset().add(replay(q, ops).1.to_multiset()) == (q
            + pushed(ops)).to_multiset(),
    decreases ops.len(),
{
    if ops.len() > 0 {
        lemma_queue_conserves(q, ops.drop_last());
        let prev = replay(q, ops.drop_last());
        match ops.last() {
            QueueOp::Push(i) => {
                assert(prev.0 + prev.1.push(i) =~= (prev.0 + prev.1).push(i));
                assert((q + pushed(ops.drop_last())).push(i) =~= q + pushed(ops.drop_last()).push(i));
                assert(prev.0 + Seq::<InteractionView>::empty() =~= prev.0);
            },
            QueueOp::Pop(n) => {
                let k = if n < prev.1.len() { n as int } else { prev.1.len() as int };
                assert(prev.0 + prev.1.take(k) + prev.1.skip(k) =~= prev.0 + prev.1);
            },
        }
    } else {
        assert(Seq::<InteractionView>::empty() + q =~= q + Seq::<InteractionView>::empty());
    }
    vstd::seq_lib::lemma_multiset_commutative(replay(q, ops).0, replay(q, ops).1);
}

/// One pop keeps the history whole: if what was popped so far followed by
/// the queue is what was pushed, the same holds after popping a batch.
pub proof fn lemma_pop_step_conserves(popped: Seq<InteractionView>, q: Seq<InteractionView>, pushed_so_far: Seq<InteractionView>, n: nat)
    requires
        popped + q == pushed_so_far,
    ensures
        popped + queue_step(q, QueueOp::Pop(n)).0 + queue_step(q, QueueOp::Pop(n)).1 == pushed_so_far,
        (popped + queue_step(q, QueueOp::Pop(n)).0 + queue_step(q, QueueOp::Pop(n)).1).to_multiset()
            == pushed_so_far.to_multiset(),
{
    let k = if n < q.len() { n as int } else { q.len() as int };
    assert(popped + q.take(k) + q.skip(k) =~= popped + q);
}

/// What a buffer holds can always be recovered after a reopening: its own
/// keys satisfy [`recoverable`], so [`Buffer::recover`] on its keys and
/// interactions succeeds with the same contents, length and oldest entries.
pub proof fn lemma_reopen_recovers(b: BufferModel)
    requires
        b.wf(),
    ensures
        recoverable(b.keys, b.items.len()),
{
}

/// Popping from an empty buffer returns nothing and leaves it empty.
pub proof fn lemma_pop_empty(q: Seq<InteractionView>, n: nat)
    requires
        q.len() == 0,
    ensures
        queue_step(q, QueueOp::Pop(n)).0.len() == 0,
        queue_step(q, QueueOp::Pop(n)).1.len() == 0,
{
}


/// `x` precedes `y` in lexicographic byte order.
pub open spec fn lex_less(x: Seq<u8>, y: Seq<u8>) -> bool
    decreases x.len(),
{
    x.len() > 0 && y.len() > 0 && (x[0] < y[0] || (x[0] == y[0] && lex_less(x.drop_first(), y.drop_first())))
}

proof fn lemma_be_value_bound(x: Seq<u8>)
    ensures
        be_value(x) < pow256(x.len()),
    decreases x.len(),
{
    if x.len() > 0 {
        lemma_be_value_bound(x.drop_last());
        let p = pow256((x.len() - 1) as nat);
        let v = be_value(x.drop_last());
        assert(v * 256 + x.last() < p * 256) by (nonlinear_arith)
            requires
                v < p,
                x.last() < 256,
        ;
    }
}

proof fn lemma_be_value_first(x: Seq<u8>)
    requires
        x.len() > 0,
    ensures
        be_value(x) == x[0] * pow256((x.len() - 1) as nat) + be_value(x.drop_first()),
    decreases x.len(),
{
    if x.len() == 1 {
        assert(x.drop_last().len() == 0);
        assert(x.drop_first().len() == 0);
        assert(be_value(x.drop_last()) == 0);
        assert(be_value(x.drop_first()) == 0);
        assert(pow256(0) == 1);
        assert(x.last() == x[0]);
        assert(be_value(x) == be_value(x.drop_last()) * 256 + x.last());
        assert((x.len() - 1) as nat == 0);
        assert(x[0] * pow256((x.len() - 1) as nat) == x[0]);
    } else {
        lemma_be_value_first(x.drop_last());
        assert(x.drop_last().drop_first() =~= x.drop_first().drop_last());
        let p = pow256((x.len() - 2) as nat);
        assert(pow256((x.len() - 1) as nat) == p * 256);
        let r = be_value(x.drop_first().drop_last());
        assert(x.drop_first().last() == x.last());
        assert(x.drop_last()[0] == x[0]);
        assert(be_value(x.drop_last()) == x[0] * p + r);
        assert(be_value(x.drop_first()) == r * 256 + x.last());
        assert((x[0] * p + r) * 256 + x.last() == x[0] * (p * 256) + (r * 256 + x.last())) by (nonlinear_arith);
        assert(be_value(x) == be_value(x.drop_last()) * 256 + x.last());
    }
}

/// Big-endian keys of equal length order lexicographically as their values
/// order numerically, so iterating keys visits sequence values in order.
pub proof fn lemma_key_order(x: Seq<u8>, y: Seq<u8>)
    requires
        x.len() == y.len(),
    ensures
        be_value(x) < be_value(y) <==> lex_less(x, y),
    decreases x.len(),
{
    if x.len() > 0 {
        let n = (x.len() - 1) as nat;
        let p = pow256(n);
        lemma_be_value_first(x);
        lemma_be_value_first(y);
        lemma_be_value_bound(x.drop_first());
        lemma_be_value_bound(y.drop_first());
        lemma_key_order(x.drop_first(), y.drop_first());
        let a = be_value(x.drop_first());
        let b = be_value(y.drop_first());
        if x[0] < y[0] {
            assert(x[0] * p + a < y[0] * p + b) by (nonlinear_arith)
                requires
                    x[0] < y[0],
                    a < p,
                    b >= 0,
            ;
        } else if x[0] > y[0] {
            assert(y[0] * p + b < x[0] * p + a) by (nonlinear_arith)
                requires
                    y[0] < x[0],
                    b < p,
                    a >= 0,
            ;
        }
    }
}

} // verus!
