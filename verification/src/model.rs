//! Test messages that are records rather than bytes: one quote of a
//! market, or a batch of them.
use smallvec::SmallVec;
use vstd::prelude::*;

verus! {

/// The quotes of a batch: a `SmallVec` that keeps up to sixteen of them
/// without allocating.
#[verifier::external_body]
pub struct Quotes {
    inner: SmallVec<[MarketInfo; 16]>,
}

/// The items that `quotes` holds, in their order.
pub uninterp spec fn batch_items(quotes: Quotes) -> Seq<MarketInfo>;

/// `SmallVec::new`: a vector that holds nothing.
#[verifier::external_body]
fn batch_new() -> (quotes: Quotes)
    ensures
        batch_items(quotes) == Seq::<MarketInfo>::empty(),
{
    Quotes { inner: SmallVec::new() }
}

/// `SmallVec::push`: `item` is added behind the items that were there.
#[verifier::external_body]
fn batch_push(quotes: &mut Quotes, item: MarketInfo)
    ensures
        batch_items(*final(quotes)) == batch_items(*old(quotes)).push(item),
{
    quotes.inner.push(item)
}

/// `SmallVec::len`: the number of items.
#[verifier::external_body]
fn batch_len(quotes: &Quotes) -> (len: usize)
    ensures
        len == batch_items(*quotes).len(),
{
    quotes.inner.len()
}

/// Indexing a `SmallVec`: the item at `index`, which has to be below the length.
#[verifier::external_body]
fn batch_get(quotes: &Quotes, index: usize) -> (item: MarketInfo)
    requires
        index < batch_items(*quotes).len(),
    ensures
        item == batch_items(*quotes)[index as int],
{
    quotes.inner[index]
}

/// The side of the market that a quote is on.
#[derive(Clone, Copy, Debug, PartialEq, Eq, Structural)]
pub enum Side {
    Buy,
    Sell,
}

impl Side {
    /// The side that a coin picks: heads buys, tails sells.
    pub fn random(heads: bool) -> (side: Side)
        ensures
            side == if heads {
                Side::Buy
            } else {
                Side::Sell
            },
    {
        if heads {
            Side::Buy
        } else {
            Side::Sell
        }
    }

    /// The number that stands for a side in a checksum.
    pub open spec fn spec_ordinal(self) -> u64 {
        match self {
            Side::Buy => 0,
            Side::Sell => 1,
        }
    }

    pub fn ordinal(self) -> (ordinal: u64)
        ensures
            ordinal == self.spec_ordinal(),
    {
        match self {
            Side::Buy => 0,
            Side::Sell => 1,
        }
    }
}

/// What a consumer asks of a message: when it was sent, and whether it
/// arrived as it was sent.
pub trait Message {
    spec fn spec_time(&self) -> u64;

    spec fn spec_check(&self) -> bool;

    /// The clock reading at the time of sending.
    fn time(&self) -> (time: u64)
        ensures
            time == self.spec_time(),
    ;

    /// Whether the message is as it was sent.
    fn check(&self) -> (intact: bool)
        ensures
            intact == self.spec_check(),
    ;
}

/// One quote. Amount and price are kept as the bits of the numbers, which
/// is all that the checksum reads of them.
#[derive(Clone, Copy, Debug, PartialEq, Eq, Structural)]
pub struct MarketInfo {
    pub side: Side,
    pub amount: u64,
    pub price: u64,
    pub level: usize,
    pub time: u64,
    pub checksum: u64,
}

impl MarketInfo {
    /// The checksum of a quote: all of its fields but the time, folded
    /// together bit by bit.
    pub open spec fn spec_checksum(&self) -> u64 {
        self.side.spec_ordinal() ^ self.amount ^ self.price ^ (self.level as u64)
    }

    /// A quote with its checksum, sent at the reading `time`.
    pub fn random(side: Side, amount: u64, price: u64, level: usize, time: u64) -> (quote: Self)
        ensures
            quote == (MarketInfo { side, amount, price, level, time, checksum: quote.checksum }),
            quote.checksum == quote.spec_checksum(),
            quote.spec_check(),
    {
        let mut this = MarketInfo { side, amount, price, level, time: 0, checksum: 0 };
        this.set_checksum();
        this.time = time;
        this
    }

    // Simplest checksum possible.
    pub fn calculate_checksum(&self) -> (checksum: u64)
        ensures
            checksum == self.spec_checksum(),
    {
        self.side.ordinal() ^ self.amount ^ self.price ^ (self.level as u64)
    }

    pub fn set_checksum(&mut self)
        ensures
            *final(self) == (MarketInfo { checksum: old(self).spec_checksum(), ..*old(self) }),
    {
        self.checksum = self.calculate_checksum();
    }
}

impl Message for MarketInfo {
    open spec fn spec_time(&self) -> u64 {
        self.time
    }

    open spec fn spec_check(&self) -> bool {
        self.checksum == self.spec_checksum()
    }

    fn time(&self) -> (time: u64) {
        self.time
    }

    fn check(&self) -> (intact: bool) {
        self.checksum == self.calculate_checksum()
    }
}

/// Quotes that travel as one message.
pub struct Batch {
    inner: Quotes,
    time: u64,
    size: usize,
}

impl Batch {
    /// The quotes of the batch, in their order.
    pub closed spec fn items(&self) -> Seq<MarketInfo> {
        batch_items(self.inner)
    }

    pub closed spec fn sent_at(&self) -> u64 {
        self.time
    }

    /// The number of quotes that the batch claims to hold.
    pub closed spec fn claimed(&self) -> usize {
        self.size
    }

    /// The batch of the quotes of `quotes`, sent at the reading `time`.
    pub fn new(quotes: &[MarketInfo], time: u64) -> (batch: Self)
        ensures
            batch.items() == quotes@,
            batch.sent_at() == time,
            batch.claimed() == quotes@.len(),
    {
        let mut inner = batch_new();
        let n: usize = quotes.len();
        let mut i: usize = 0;
        while i < n
            invariant
                n == quotes@.len(),
                i <= n,
                batch_items(inner) == quotes@.subrange(0, i as int),
            decreases n - i,
        {
            batch_push(&mut inner, quotes[i]);
            proof {
                assert(quotes@.subrange(0, i as int).push(quotes@[i as int])
                    =~= quotes@.subrange(0, i + 1));
            }
            i = i + 1;
        }
        proof {
            assert(quotes@.subrange(0, n as int) =~= quotes@);
        }
        let size = batch_len(&inner);
        Batch { inner, time, size }
    }

    /// A batch as it came off the wire: the quotes, the time, and the
    /// number of quotes that the sender wrote down.
    pub fn received(quotes: &[MarketInfo], time: u64, size: usize) -> (batch: Self)
        ensures
            batch.items() == quotes@,
            batch.sent_at() == time,
            batch.claimed() == size,
    {
        let made = Batch::new(quotes, time);
        Batch { inner: made.inner, time, size }
    }

    /// The number of quotes.
    pub fn len(&self) -> (len: usize)
        ensures
            len == self.items().len(),
    {
        batch_len(&self.inner)
    }

    /// The quote at `index`.
    pub fn get(&self, index: usize) -> (quote: MarketInfo)
        requires
            index < self.items().len(),
        ensures
            quote == self.items()[index as int],
    {
        batch_get(&self.inner, index)
    }
}

impl Message for Batch {
    open spec fn spec_time(&self) -> u64 {
        self.sent_at()
    }

    /// A batch is intact if it holds as many quotes as it claims and
    /// every one of them is intact.
    open spec fn spec_check(&self) -> bool {
        &&& self.items().len() == self.claimed()
        &&& forall|i: int| 0 <= i < self.items().len() ==> (#[trigger] self.items()[i]).spec_check()
    }

    fn time(&self) -> (time: u64) {
        self.time
    }

    fn check(&self) -> (intact: bool) {
        let n: usize = batch_len(&self.inner);
        if n != self.size {
            return false;
        }
        let mut i: usize = 0;
        while i < n
            invariant
                n == batch_items(self.inner).len(),
                i <= n,
                forall|k: int| 0 <= k < i ==> (#[trigger] batch_items(self.inner)[k]).spec_check(),
            decreases n - i,
        {
            let quote = batch_get(&self.inner, i);
            if !quote.check() {
                return false;
            }
            i = i + 1;
        }
        true
    }
}

} // verus!
