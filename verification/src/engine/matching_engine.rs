//! The matching engine: one order book per instrument, fed from a queue.
use vstd::prelude::*;

use crate::common::create_order::AcceptedOrder;
use crate::common::queue::{QueueConsumer, RingBufferConsumer};
use crate::common::types::{TickerId, ME_MAX_TICKERS};
use crate::engine::book_laws::{lemma_remainder_rests_last, rests_last};
use crate::engine::orderbook::{BookView, OrderBook, RestingOrder};
use crate::engine::request::EngineRequest;

verus! {

/// What one turn of the engine's polling did.
pub enum EngineStep {
    /// The queue held no request.
    Empty,
    /// The request taken from the queue was applied to its book.
    Processed(EngineRequest),
    /// The request taken from the queue names no book, or its book could not
    /// take it; the engine cannot go on after it.
    Failed(EngineRequest),
}

pub struct MatchingEngine {
    ticker_order_book: Vec<OrderBook>,
    incoming_requests: RingBufferConsumer<EngineRequest>,
}

/// Book `ticker_id` of an engine completes `req`.
pub open spec fn request_ok(books: Seq<BookView>, req: EngineRequest) -> bool {
    match req {
        EngineRequest::NewOrder(o) => {
            &&& (o.ticker_id as int) < books.len()
            &&& books[o.ticker_id as int].add_ok(o.side, o.quantity)
        },
    }
}

/// Books after `req`: the new order is added to the book of its ticker.
pub open spec fn after_request(books: Seq<BookView>, req: EngineRequest) -> Seq<BookView> {
    match req {
        EngineRequest::NewOrder(o) => books.update(
            o.ticker_id as int,
            books[o.ticker_id as int].after_add(
                o.client_id,
                o.client_order_id,
                o.side,
                o.price,
                o.quantity,
            ),
        ),
    }
}

/// A request changes the book of its own ticker and no other, and keeps the
/// number of books.
pub proof fn lemma_request_touches_one_book(books: Seq<BookView>, req: EngineRequest, j: int)
    requires
        request_ok(books, req),
        0 <= j < books.len(),
        j != match req {
            EngineRequest::NewOrder(o) => o.ticker_id as int,
        },
    ensures
        after_request(books, req).len() == books.len(),
        after_request(books, req)[j] == books[j],
{
}

/// A new-order request is filed under the request's own ids: the book of
/// its ticker changes as an add of the request's client id, client order id,
/// side, price and quantity, and whatever is left of the order rests last at
/// its price on its own side carrying the request's `client_id` and
/// `client_order_id` (so a cancel with those ids finds it) and the book's
/// next market order id; the request's upstream `market_order_id` is not
/// used.
pub proof fn lemma_request_rests_under_its_ids(books: Seq<BookView>, o: AcceptedOrder)
    requires
        request_ok(books, EngineRequest::NewOrder(o)),
        books[o.ticker_id as int].wf(),
    ensures
        after_request(books, EngineRequest::NewOrder(o))[o.ticker_id as int] == books[o.ticker_id as int].after_add(
            o.client_id,
            o.client_order_id,
            o.side,
            o.price,
            o.quantity,
        ),
        books[o.ticker_id as int].add_leaves(o.side, o.price, o.quantity) > 0 ==> rests_last(
            if o.side is Buy {
                after_request(books, EngineRequest::NewOrder(o))[o.ticker_id as int].bids
            } else {
                after_request(books, EngineRequest::NewOrder(o))[o.ticker_id as int].asks
            },
            o.price,
            RestingOrder {
                client_id: o.client_id,
                client_order_id: o.client_order_id,
                market_order_id: books[o.ticker_id as int].next_id,
                quantity: books[o.ticker_id as int].add_leaves(o.side, o.price, o.quantity),
                priority: 0,
            },
        ),
{
    let b = books[o.ticker_id as int];
    if b.add_leaves(o.side, o.price, o.quantity) > 0 {
        lemma_remainder_rests_last(b, o.client_id, o.client_order_id, o.side, o.price, o.quantity);
    }
}

impl MatchingEngine {
    /// The order books, by ticker.
    pub closed spec fn books(&self) -> Seq<BookView> {
        self.ticker_order_book@.map_values(|b: OrderBook| b@)
    }

    /// The requests taken from the queue so far, oldest first.
    pub closed spec fn taken(&self) -> Seq<EngineRequest> {
        self.incoming_requests.received()
    }

    /// One sound book per ticker.
    pub closed spec fn inv(&self) -> bool {
        &&& self.ticker_order_book@.len() == ME_MAX_TICKERS
        &&& forall|i: int| 0 <= i < ME_MAX_TICKERS ==> #[trigger] self.ticker_order_book@[i].inv()
    }

    pub proof fn lemma_inv(&self)
        requires
            self.inv(),
        ensures
            self.books().len() == ME_MAX_TICKERS,
            forall|i: int| 0 <= i < ME_MAX_TICKERS ==> (#[trigger] self.books()[i]).wf(),
    {
        assert forall|i: int| 0 <= i < ME_MAX_TICKERS implies (#[trigger] self.books()[i]).wf() by {
            assert(self.ticker_order_book@[i].inv());
        }
    }

    /// An engine with an empty book for each of the `ME_MAX_TICKERS` tickers.
    pub fn new(incoming_requests: RingBufferConsumer<EngineRequest>) -> (e: Self)
        ensures
            e.inv(),
            e.taken() == incoming_requests.received(),
            forall|i: int|
                0 <= i < ME_MAX_TICKERS ==> (#[trigger] e.books()[i]).ticker_id == i && e.books()[i].next_id == 1,
    {
        let mut ticker_order_book: Vec<OrderBook> = Vec::new();
        let mut ticker_id: TickerId = 0;
        while (ticker_id as usize) < ME_MAX_TICKERS
            invariant
                ticker_id as int <= ME_MAX_TICKERS,
                ticker_order_book@.len() == ticker_id,
                forall|i: int| 0 <= i < ticker_id ==> #[trigger] ticker_order_book@[i].inv(),
                forall|i: int|
                    0 <= i < ticker_id ==> (#[trigger] ticker_order_book@[i])@.ticker_id == i
                        && ticker_order_book@[i]@.next_id == 1,
            decreases ME_MAX_TICKERS - ticker_id,
        {
            ticker_order_book.push(OrderBook::new(ticker_id));
            ticker_id = ticker_id + 1;
        }
        Self { ticker_order_book, incoming_requests }
    }

    /// The order book of ticker `ticker_id`.
    pub fn book(&self, ticker_id: usize) -> (r: &OrderBook)
        requires
            self.inv(),
            ticker_id < ME_MAX_TICKERS,
        ensures
            r@ == self.books()[ticker_id as int],
    {
        &self.ticker_order_book[ticker_id]
    }

    /// Hands a request to the book of its ticker.
    pub fn process_order(&mut self, req: EngineRequest)
        requires
            old(self).inv(),
            request_ok(old(self).books(), req),
        ensures
            final(self).inv(),
            final(self).books() == after_request(old(self).books(), req),
    {
        proof {
            self.lemma_inv();
        }
        match req {
            EngineRequest::NewOrder(AcceptedOrder {
                price,
                quantity,
                timestamp: _,
                client_order_id,
                market_order_id: _,
                client_id,
                ticker_id,
                side,
                order_type: _,
                ..
            }) => {
                let ghost before = self.ticker_order_book@;
                let book = &mut self.ticker_order_book[ticker_id as usize];
                book.add(client_id, client_order_id, ticker_id, side, price, quantity);
                proof {
                    assert(self.books() =~= after_request(before.map_values(|b: OrderBook| b@), req));
                }
            },
        }
    }

    /// `process_order` with every condition under which it could not
    /// complete tested first or on the way: returns whether the request went
    /// through, and then the books are exactly what `process_order` leaves;
    /// a request that cannot go through leaves every book as it was.
    pub fn try_process_order(&mut self, req: EngineRequest) -> (r: bool)
        requires
            old(self).inv(),
        ensures
            final(self).inv(),
            r == request_ok(old(self).books(), req),
            r ==> final(self).books() == after_request(old(self).books(), req),
            !r ==> final(self).books() == old(self).books(),
            final(self).taken() == old(self).taken(),
    {
        proof {
            self.lemma_inv();
        }
        match req {
            EngineRequest::NewOrder(AcceptedOrder {
                price,
                quantity,
                client_order_id,
                client_id,
                ticker_id,
                side,
                ..
            }) => {
                if ticker_id as usize >= self.ticker_order_book.len() {
                    return false;
                }
                let ghost before = self.ticker_order_book@;
                let book = &mut self.ticker_order_book[ticker_id as usize];
                let ok = book.try_add(client_id, client_order_id, ticker_id, side, price, quantity);
                proof {
                    assert(before.map_values(|b: OrderBook| b@)[ticker_id as int] == before[ticker_id as int]@);
                    if ok {
                        assert(self.books() =~= after_request(before.map_values(|b: OrderBook| b@), req));
                    } else {
                        assert(self.books() =~= before.map_values(|b: OrderBook| b@));
                    }
                }
                ok
            },
        }
    }

    /// One turn of the engine: takes the next request from the queue, if
    /// any, and applies it to its book.
    pub fn poll_once(&mut self) -> (step: EngineStep)
        requires
            old(self).inv(),
        ensures
            final(self).inv(),
            match step {
                EngineStep::Empty => final(self).books() == old(self).books() && final(self).taken()
                    == old(self).taken(),
                EngineStep::Processed(req) => request_ok(old(self).books(), req)
                    && final(self).books() == after_request(old(self).books(), req)
                    && final(self).taken() == old(self).taken().push(req),
                EngineStep::Failed(req) => !request_ok(old(self).books(), req)
                    && final(self).books() == old(self).books()
                    && final(self).taken() == old(self).taken().push(req),
            },
    {
        match self.incoming_requests.pop() {
            Ok(req) => {
                if self.try_process_order(req) {
                    EngineStep::Processed(req)
                } else {
                    EngineStep::Failed(req)
                }
            },
            Err(_) => EngineStep::Empty,
        }
    }
}

} // verus!
