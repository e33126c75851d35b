use latency_lab::dense_book::book::{Book, DenseBook, PriceLevel, TreeBook};

fn tree_quantity(book: &TreeBook, price: u64) -> Option<u64> {
    book.get(price).map(|level| level.qty)
}

fn dense_quantity(book: &DenseBook, price: u64) -> Option<u64> {
    book.get(price).map(|level| level.qty)
}

#[test]
fn default_level_is_empty() {
    assert_eq!(PriceLevel::default().qty, 0);
    assert_eq!(PriceLevel { qty: 9 }.clone().qty, 9);
}

#[test]
fn new_books_are_empty() {
    assert!(TreeBook::default().get(0).is_none());
    assert!(DenseBook::new(100).get(100).is_none());
}

#[test]
fn tree_book_reads_back_the_write() {
    let mut book = TreeBook::default();
    book.update(7, 5);
    book.update(8, 6);
    assert_eq!(tree_quantity(&book, 7), Some(5));
    assert_eq!(tree_quantity(&book, 8), Some(6));
    book.update(7, 11);
    assert_eq!(tree_quantity(&book, 7), Some(11));
    assert_eq!(tree_quantity(&book, 9), None);
}

#[test]
fn tree_book_removes_at_zero() {
    let mut book = TreeBook::default();
    book.update(7, 5);
    book.update(7, 0);
    assert_eq!(tree_quantity(&book, 7), None);
    book.update(u64::MAX, 0);
    assert_eq!(tree_quantity(&book, u64::MAX), None);
    book.update(u64::MAX, 3);
    assert_eq!(tree_quantity(&book, u64::MAX), Some(3));
}

#[test]
fn dense_book_reads_back_the_write() {
    let mut book = DenseBook::new(100);
    book.update(105, 5);
    assert_eq!(dense_quantity(&book, 105), Some(5));
    for price in 100..105 {
        assert_eq!(dense_quantity(&book, price), None);
    }
    book.update(100, 1);
    book.update(105, 6);
    assert_eq!(dense_quantity(&book, 100), Some(1));
    assert_eq!(dense_quantity(&book, 105), Some(6));
    assert_eq!(dense_quantity(&book, 106), None);
    assert_eq!(dense_quantity(&book, u64::MAX), None);
}

#[test]
fn dense_book_removes_at_zero() {
    let mut book = DenseBook::new(100);
    book.update(101, 5);
    book.update(101, 0);
    book.update(110, 0);
    assert_eq!(dense_quantity(&book, 101), None);
    assert_eq!(dense_quantity(&book, 110), None);
}

#[test]
fn dense_book_ignores_prices_below_its_base() {
    let mut book = DenseBook::new(100);
    book.update(99, 5);
    book.update(0, 5);
    assert_eq!(dense_quantity(&book, 99), None);
    assert_eq!(dense_quantity(&book, 0), None);
    assert_eq!(dense_quantity(&book, 100), None);
}

#[test]
fn dense_book_grows_over_empty_slots() {
    let mut book = DenseBook::new(100);
    book.update(101, 5);
    book.update(101, 0);
    book.update(103, 0);
    for price in 95..110 {
        assert_eq!(dense_quantity(&book, price), None);
    }
    book.update(103, 5);
    let held: Vec<Option<u64>> = (99..105).map(|price| dense_quantity(&book, price)).collect();
    assert_eq!(held, [None, None, None, None, Some(5), None]);
}

#[test]
fn dense_book_reaches_the_highest_price() {
    let mut book = DenseBook::new(u64::MAX);
    book.update(u64::MAX, 4);
    assert_eq!(dense_quantity(&book, u64::MAX), Some(4));
    assert_eq!(dense_quantity(&book, u64::MAX - 1), None);
}

fn fill<B: Book>(mut book: B) -> Vec<Option<u64>> {
    book.update(100, 3);
    book.update(102, 4);
    book.update(100, 0);
    book.update(101, 9);
    book.update(101, 8);
    (98..104).map(|price| book.quantity(price)).collect()
}

#[test]
fn books_answer_alike() {
    let expected = vec![None, None, None, Some(8), Some(4), None];
    assert_eq!(fill(TreeBook::default()), expected);
    assert_eq!(fill(DenseBook::new(98)), expected);
}

#[test]
fn updates_at_different_prices_change_places() {
    let mut left = TreeBook::default();
    left.update(1, 10);
    left.update(2, 20);
    let mut right = TreeBook::default();
    right.update(2, 20);
    right.update(1, 10);
    for price in 0..4 {
        assert_eq!(left.quantity(price), right.quantity(price));
    }
}
