//! Storage of the latest order book per asset. Every feed update carries
//! a full snapshot, so ingestion replaces a book wholesale; there is no
//! merge logic.

use vstd::prelude::*;
use crate::types::{Level, OrderBook};

verus! {

/// The minimum-price ask level of a side, as a left-to-right scan keeps
/// it: the later level wins a price tie. Ties are interchangeable for
/// this engine, since price alone ranks levels.
pub open spec fn best_ask_of(asks: Seq<Level>) -> Option<Level>
    decreases asks.len(),
{
    if asks.len() == 0 {
        None
    } else {
        match best_ask_of(asks.drop_last()) {
            None => Some(asks.last()),
            Some(b) => if asks.last().price <= b.price {
                Some(asks.last())
            } else {
                Some(b)
            },
        }
    }
}

/// Law: `best_ask_of` is `None` exactly on an empty side, and otherwise
/// returns a stored level of minimum price.
pub proof fn lemma_best_ask_minimal(asks: Seq<Level>)
    ensures
        best_ask_of(asks) is None <==> asks.len() == 0,
        best_ask_of(asks) matches Some(l) ==> asks.contains(l) && (forall|i: int|
            0 <= i < asks.len() ==> l.price <= #[trigger] asks[i].price),
    decreases asks.len(),
{
    if asks.len() > 0 {
        lemma_best_ask_minimal(asks.drop_last());
        let l = best_ask_of(asks)->Some_0;
        if asks.last().price <= l.price || asks.len() == 1 {
            assert(asks[asks.len() - 1] == asks.last());
        } else {
            let prior = best_ask_of(asks.drop_last())->Some_0;
            let j = choose|j: int| 0 <= j < asks.drop_last().len() && asks.drop_last()[j] == prior;
            assert(asks[j] == prior);
        }
        assert forall|i: int| 0 <= i < asks.len() implies l.price <= #[trigger] asks[i].price by {
            if i < asks.len() - 1 {
                assert(asks.drop_last()[i] == asks[i]);
            }
        }
    }
}

/// Scans a side for its minimum-price level.
pub fn best_ask_level(asks: &Vec<Level>) -> (r: Option<Level>)
    ensures
        r == best_ask_of(asks@),
{
    let mut best: Option<Level> = None;
    let mut i: usize = 0;
    while i < asks.len()
        invariant
            i <= asks@.len(),
            best == best_ask_of(asks@.take(i as int)),
        decreases asks@.len() - i,
    {
        let l = asks[i];
        proof {
            assert(asks@.take(i + 1).drop_last() =~= asks@.take(i as int));
            assert(asks@.take(i + 1).last() == asks@[i as int]);
        }
        best = match best {
            None => Some(l),
            Some(b) => if l.price <= b.price {
                Some(l)
            } else {
                Some(b)
            },
        };
        i = i + 1;
    }
    proof {
        assert(asks@.take(asks@.len() as int) =~= asks@);
    }
    best
}

/// No two stored books share an asset identifier.
pub open spec fn unique_assets(books: Seq<OrderBook>) -> bool {
    forall|i: int, j: int|
        0 <= i < j < books.len() ==> #[trigger] books[i].asset_id@ != #[trigger] books[j].asset_id@
}

/// Some book is stored for the asset.
pub open spec fn has_book(books: Seq<OrderBook>, asset: Seq<char>) -> bool {
    exists|i: int| 0 <= i < books.len() && #[trigger] books[i].asset_id@ == asset
}

/// Index of the book stored for the asset; meaningful under `has_book`.
pub open spec fn book_index(books: Seq<OrderBook>, asset: Seq<char>) -> int {
    choose|i: int| 0 <= i < books.len() && #[trigger] books[i].asset_id@ == asset
}

/// The book stored for the asset; meaningful under `has_book`.
pub open spec fn book_for(books: Seq<OrderBook>, asset: Seq<char>) -> OrderBook {
    books[book_index(books, asset)]
}

/// Wholesale replacement of the book for `book.asset_id`: the stored book
/// is overwritten where one exists, appended otherwise.
pub open spec fn ingest_spec(books: Seq<OrderBook>, book: OrderBook) -> Seq<OrderBook> {
    if has_book(books, book.asset_id@) {
        books.update(book_index(books, book.asset_id@), book)
    } else {
        books.push(book)
    }
}

/// Replaces the stored book for `book.asset_id` with `book`.
pub fn store_ingest(books: &mut Vec<OrderBook>, book: OrderBook)
    requires
        unique_assets(old(books)@),
    ensures
        final(books)@ == ingest_spec(old(books)@, book),
        unique_assets(final(books)@),
{
    proof {
        lemma_ingest_preserves_unique(books@, book);
    }
    let n = books.len();
    let mut i: usize = 0;
    while i < n
        invariant
            i <= n,
            n == books@.len(),
            books@ == old(books)@,
            unique_assets(books@),
            forall|k: int| 0 <= k < i ==> #[trigger] books@[k].asset_id@ != book.asset_id@,
        decreases n - i,
    {
        if books[i].asset_id == book.asset_id {
            proof {
                assert(books@[i as int].asset_id@ == book.asset_id@);
                assert(book_index(books@, book.asset_id@) == i) by {
                    let j = book_index(books@, book.asset_id@);
                    assert(0 <= j < books@.len() && books@[j].asset_id@ == book.asset_id@);
                }
            }
            books[i] = book;
            return ;
        }
        i = i + 1;
    }
    proof {
        assert(!has_book(books@, book.asset_id@));
    }
    books.push(book);
}

proof fn lemma_ingest_preserves_unique(books: Seq<OrderBook>, book: OrderBook)
    requires
        unique_assets(books),
    ensures
        unique_assets(ingest_spec(books, book)),
        has_book(ingest_spec(books, book), book.asset_id@),
        book_for(ingest_spec(books, book), book.asset_id@) == book,
{
    let after = ingest_spec(books, book);
    if has_book(books, book.asset_id@) {
        let j = book_index(books, book.asset_id@);
        assert(0 <= j < books.len() && books[j].asset_id@ == book.asset_id@);
        assert(after[j] == book);
        assert forall|p: int, q: int| 0 <= p < q < after.len() implies #[trigger] after[p].asset_id@
            != #[trigger] after[q].asset_id@ by {
            assert(books[p].asset_id@ != books[q].asset_id@);
        }
        let k = book_index(after, book.asset_id@);
        assert(0 <= k < after.len() && after[k].asset_id@ == book.asset_id@);
        if k != j {
            assert(after[k] == books[k]);
            assert(books[k].asset_id@ != books[j].asset_id@);
        }
    } else {
        assert(after[books.len() as int] == book);
        assert forall|p: int, q: int| 0 <= p < q < after.len() implies #[trigger] after[p].asset_id@
            != #[trigger] after[q].asset_id@ by {
            if q < books.len() {
                assert(books[p].asset_id@ != books[q].asset_id@);
            } else {
                assert(after[q] == book);
                assert(!(books[p].asset_id@ == book.asset_id@));
            }
        }
        let k = book_index(after, book.asset_id@);
        assert(0 <= k < after.len() && after[k].asset_id@ == book.asset_id@);
        if k != books.len() {
            assert(!(books[k].asset_id@ == book.asset_id@));
        }
    }
}

/// How an ingest changes what is stored for each asset: the ingested
/// asset now maps to the new book, every other asset is untouched.
pub proof fn lemma_ingest_effect(books: Seq<OrderBook>, book: OrderBook, asset: Seq<char>)
    requires
        unique_assets(books),
    ensures
        unique_assets(ingest_spec(books, book)),
        has_book(ingest_spec(books, book), book.asset_id@),
        book_for(ingest_spec(books, book), book.asset_id@) == book,
        asset != book.asset_id@ ==> has_book(ingest_spec(books, book), asset) == has_book(
            books,
            asset,
        ),
        asset != book.asset_id@ && has_book(books, asset) ==> book_for(
            ingest_spec(books, book),
            asset,
        ) == book_for(books, asset),
{
    lemma_ingest_preserves_unique(books, book);
    let after = ingest_spec(books, book);
    if asset != book.asset_id@ {
        if has_book(books, asset) {
            let j = book_index(books, asset);
            assert(0 <= j < books.len() && books[j].asset_id@ == asset);
            assert(after[j] == books[j]);
            assert(has_book(after, asset));
            let k = book_index(after, asset);
            assert(0 <= k < after.len() && after[k].asset_id@ == asset);
            if has_book(books, book.asset_id@) {
                let u = book_index(books, book.asset_id@);
                assert(after[k] == books[k]);
            } else {
                if k == books.len() {
                    assert(after[k] == book);
                } else {
                    assert(after[k] == books[k]);
                }
            }
            if k != j {
                assert(books[k].asset_id@ != books[j].asset_id@);
            }
        } else {
            if has_book(after, asset) {
                let k = book_index(after, asset);
                assert(0 <= k < after.len() && after[k].asset_id@ == asset);
                if has_book(books, book.asset_id@) {
                    assert(after[k] == books[k]);
                } else {
                    if k < books.len() {
                        assert(after[k] == books[k]);
                    } else {
                        assert(after[k] == book);
                    }
                }
            }
        }
    }
}

/// The store after ingesting each snapshot of a sequence in turn.
pub open spec fn apply_snapshots(books: Seq<OrderBook>, snaps: Seq<OrderBook>) -> Seq<OrderBook>
    decreases snaps.len(),
{
    if snaps.len() == 0 {
        books
    } else {
        ingest_spec(apply_snapshots(books, snaps.drop_last()), snaps.last())
    }
}

/// The latest snapshot of a sequence that carries the asset.
pub open spec fn latest_snapshot_for(snaps: Seq<OrderBook>, asset: Seq<char>) -> Option<OrderBook>
    decreases snaps.len(),
{
    if snaps.len() == 0 {
        None
    } else if snaps.last().asset_id@ == asset {
        Some(snaps.last())
    } else {
        latest_snapshot_for(snaps.drop_last(), asset)
    }
}

/// Law: after any sequence of ingested snapshots, the store holds for
/// each asset exactly the latest snapshot that named it; with
/// `lemma_best_ask_minimal`, the best ask for an asset is always the
/// minimum-price ask currently stored for it.
pub proof fn lemma_store_tracks_latest(
    books: Seq<OrderBook>,
    snaps: Seq<OrderBook>,
    asset: Seq<char>,
)
    requires
        unique_assets(books),
    ensures
        unique_assets(apply_snapshots(books, snaps)),
        match latest_snapshot_for(snaps, asset) {
            Some(b) => has_book(apply_snapshots(books, snaps), asset) && book_for(
                apply_snapshots(books, snaps),
                asset,
            ) == b,
            None => has_book(apply_snapshots(books, snaps), asset) == has_book(books, asset) && (
            has_book(books, asset) ==> book_for(apply_snapshots(books, snaps), asset) == book_for(
                books,
                asset,
            )),
        },
    decreases snaps.len(),
{
    if snaps.len() > 0 {
        lemma_store_tracks_latest(books, snaps.drop_last(), asset);
        lemma_ingest_effect(apply_snapshots(books, snaps.drop_last()), snaps.last(), asset);
    }
}

/// Law: for any sequence of ingested snapshots, the best ask of an asset
/// is the minimum-price ask currently stored for it — a level of the
/// latest snapshot that named the asset, of minimal price among what that
/// snapshot carried, and `None` exactly where its ask side was empty.
pub proof fn lemma_best_ask_after_snapshots(
    books: Seq<OrderBook>,
    snaps: Seq<OrderBook>,
    asset: Seq<char>,
)
    requires
        unique_assets(books),
        latest_snapshot_for(snaps, asset) is Some,
    ensures
        ({
            let stored = book_for(apply_snapshots(books, snaps), asset);
            &&& has_book(apply_snapshots(books, snaps), asset)
            &&& stored == latest_snapshot_for(snaps, asset)->Some_0
            &&& (best_ask_of(stored.asks@) is None <==> stored.asks@.len() == 0)
            &&& (best_ask_of(stored.asks@) matches Some(l) ==> stored.asks@.contains(l) && (
            forall|i: int| 0 <= i < stored.asks@.len() ==> l.price <= #[trigger] stored.asks@[i].price))
        }),
{
    lemma_store_tracks_latest(books, snaps, asset);
    lemma_best_ask_minimal(book_for(apply_snapshots(books, snaps), asset).asks@);
}

} // verus!
