//! Tests of the checkout ledger: the checkout/return workflow and the
//! listing queries.

use checkout_ledger::error::AppError;
use checkout_ledger::model::checkout::{CreateCheckout, UpdateReturned};
use checkout_ledger::model::id::{BookId, CheckoutId, UserId};
use checkout_ledger::repository::checkout::{BookRecord, CheckoutRepositoryImpl};

fn init_repo() -> (CheckoutRepositoryImpl, UserId, UserId, BookId) {
    let mut repo = CheckoutRepositoryImpl::new();

    let user_id1 = UserId(1);
    let user_id2 = UserId(2);
    let book_id1 = BookId(10);
    repo.register_book(BookRecord {
        book_id: book_id1,
        title: "a title".to_string(),
        author: "an author".to_string(),
        isbn: "an isbn".to_string(),
    })
    .unwrap();

    (repo, user_id1, user_id2, book_id1)
}

#[test]
fn test_checkout_and_return() {
    let (mut repo, user_id1, user_id2, book_id1) = init_repo();

    // initially nothing is on loan
    let res = repo.find_unreturned_by_user_id(user_id1).unwrap();
    assert!(res.is_empty());

    let res = repo.find_unreturned_by_user_id(user_id2).unwrap();
    assert!(res.is_empty());

    let co = repo.find_unreturned_by_book_id(book_id1).unwrap();
    assert!(co.is_none());

    // checking an unregistered book out fails
    {
        let res = repo.create(CreateCheckout {
            book_id: BookId(9999),
            checked_out_by: user_id1,
            checked_out_at: 1000,
        });
        assert!(matches!(res, Err(AppError::EntityNotFound(_))));
    }

    // check book_id1 out to user_id1
    {
        repo.create(CreateCheckout {
            book_id: book_id1,
            checked_out_by: user_id1,
            checked_out_at: 1001,
        })
        .unwrap();

        let co = repo.find_unreturned_by_book_id(book_id1).unwrap();
        assert!(co.is_some());
        let co = co.unwrap();
        assert_eq!(co.book.book_id, book_id1);
        assert_eq!(co.checked_out_by, user_id1);

        // while user_id1 holds the book, checking it out to user_id2 fails
        let res = repo.create(CreateCheckout {
            book_id: book_id1,
            checked_out_by: user_id2,
            checked_out_at: 1002,
        });
        assert!(res.is_err());

        // returning it against an unregistered book fails
        let res = repo.update_returned(UpdateReturned {
            checkout_id: co.id,
            book_id: BookId(9999),
            returned_by: user_id1,
            returned_at: 1003,
        });
        assert!(matches!(res, Err(AppError::EntityNotFound(_))));

        // returning it under a loan id that is not the active one fails
        let res = repo.update_returned(UpdateReturned {
            checkout_id: CheckoutId(4242),
            book_id: book_id1,
            returned_by: user_id1,
            returned_at: 1003,
        });
        assert!(matches!(res, Err(AppError::UnprocessableEntiry(_))));

        // returning it on behalf of another user fails
        let res = repo.update_returned(UpdateReturned {
            checkout_id: co.id,
            book_id: book_id1,
            returned_by: user_id2,
            returned_at: 1003,
        });
        assert!(matches!(res, Err(AppError::UnprocessableEntiry(_))));

        // a matching return succeeds
        repo.update_returned(UpdateReturned {
            checkout_id: co.id,
            book_id: book_id1,
            returned_by: user_id1,
            returned_at: 1004,
        })
        .unwrap();
    }
}

#[test]
fn test_checkout_list() {
    let (mut repo, user_id1, user_id2, book_id1) = init_repo();

    // first checkout
    {
        repo.create(CreateCheckout {
            book_id: book_id1,
            checked_out_by: user_id1,
            checked_out_at: 2000,
        })
        .unwrap();

        let co = repo.find_unreturned_by_book_id(book_id1).unwrap().unwrap();

        {
            let res = repo.find_unreturned_all().unwrap();
            assert_eq!(res.len(), 1);

            let res = repo.find_unreturned_by_user_id(user_id1).unwrap();
            assert_eq!(res.len(), 1);

            let res = repo.find_unreturned_by_user_id(user_id2).unwrap();
            assert_eq!(res.len(), 0);

            let res = repo.find_history_by_book_id(book_id1).unwrap();
            assert_eq!(res.len(), 1);
        }

        repo.update_returned(UpdateReturned {
            checkout_id: co.id,
            book_id: book_id1,
            returned_by: user_id1,
            returned_at: 2001,
        })
        .unwrap();

        {
            let res = repo.find_unreturned_all().unwrap();
            assert_eq!(res.len(), 0);

            let res = repo.find_unreturned_by_user_id(user_id1).unwrap();
            assert_eq!(res.len(), 0);

            let res = repo.find_unreturned_by_user_id(user_id2).unwrap();
            assert_eq!(res.len(), 0);

            let res = repo.find_history_by_book_id(book_id1).unwrap();
            assert_eq!(res.len(), 1);
        }
    }

    // second checkout
    {
        repo.create(CreateCheckout {
            book_id: book_id1,
            checked_out_by: user_id2,
            checked_out_at: 2002,
        })
        .unwrap();

        let co = repo.find_unreturned_by_book_id(book_id1).unwrap().unwrap();

        {
            let res = repo.find_unreturned_all().unwrap();
            assert_eq!(res.len(), 1);

            let res = repo.find_unreturned_by_user_id(user_id1).unwrap();
            assert_eq!(res.len(), 0);

            let res = repo.find_unreturned_by_user_id(user_id2).unwrap();
            assert_eq!(res.len(), 1);

            let res = repo.find_history_by_book_id(book_id1).unwrap();
            assert_eq!(res.len(), 2);
        }

        repo.update_returned(UpdateReturned {
            checkout_id: co.id,
            book_id: book_id1,
            returned_by: user_id2,
            returned_at: 2003,
        })
        .unwrap();

        {
            let res = repo.find_unreturned_all().unwrap();
            assert_eq!(res.len(), 0);

            let res = repo.find_unreturned_by_user_id(user_id1).unwrap();
            assert_eq!(res.len(), 0);

            let res = repo.find_unreturned_by_user_id(user_id2).unwrap();
            assert_eq!(res.len(), 0);

            let res = repo.find_history_by_book_id(book_id1).unwrap();
            assert_eq!(res.len(), 2);
        }
    }
}

// Scenario: checking a book out to one user and then, before any return,
// to another resolves to one success and one conflict.
#[test]
fn second_checkout_conflicts() {
    let (mut repo, user_id1, user_id2, book_id1) = init_repo();

    repo.create(CreateCheckout { book_id: book_id1, checked_out_by: user_id1, checked_out_at: 10 })
        .unwrap();
    let res = repo.create(CreateCheckout {
        book_id: book_id1,
        checked_out_by: user_id2,
        checked_out_at: 11,
    });
    assert!(matches!(res, Err(AppError::UnprocessableEntiry(_))));

    // only the first user's loan stands
    let active = repo.find_unreturned_all().unwrap();
    assert_eq!(active.len(), 1);
    assert_eq!(active[0].checked_out_by, user_id1);
}

// Scenario: a return with the right loan id but the wrong borrower is a
// conflict, and the loan remains active.
#[test]
fn mismatched_return_leaves_loan_active() {
    let (mut repo, user_id1, user_id2, book_id1) = init_repo();

    repo.create(CreateCheckout { book_id: book_id1, checked_out_by: user_id1, checked_out_at: 10 })
        .unwrap();
    let co = repo.find_unreturned_by_book_id(book_id1).unwrap().unwrap();

    let res = repo.update_returned(UpdateReturned {
        checkout_id: co.id,
        book_id: book_id1,
        returned_by: user_id2,
        returned_at: 11,
    });
    assert!(matches!(res, Err(AppError::UnprocessableEntiry(_))));

    let still = repo.find_unreturned_by_book_id(book_id1).unwrap();
    assert!(still.is_some());
    assert_eq!(still.unwrap().id, co.id);
    assert_eq!(repo.find_history_by_book_id(book_id1).unwrap().len(), 1);
}

// Scenario: create then return; the borrower's active listing is empty and
// the history holds one entry whose time of return is set.
#[test]
fn returned_loan_moves_to_history() {
    let (mut repo, user_id1, _user_id2, book_id1) = init_repo();

    repo.create(CreateCheckout { book_id: book_id1, checked_out_by: user_id1, checked_out_at: 10 })
        .unwrap();
    let co = repo.find_unreturned_by_book_id(book_id1).unwrap().unwrap();
    assert!(co.returned_at.is_none());
    repo.update_returned(UpdateReturned {
        checkout_id: co.id,
        book_id: book_id1,
        returned_by: user_id1,
        returned_at: 99,
    })
    .unwrap();

    assert!(repo.find_unreturned_by_user_id(user_id1).unwrap().is_empty());
    let hist = repo.find_history_by_book_id(book_id1).unwrap();
    assert_eq!(hist.len(), 1);
    assert_eq!(hist[0].id, co.id);
    assert_eq!(hist[0].returned_at, Some(99));
}

// Scenario: two full lend-and-return cycles; the history holds both loans,
// the later one first.
#[test]
fn history_orders_two_cycles() {
    let (mut repo, user_id1, user_id2, book_id1) = init_repo();

    repo.create(CreateCheckout { book_id: book_id1, checked_out_by: user_id1, checked_out_at: 10 })
        .unwrap();
    let co1 = repo.find_unreturned_by_book_id(book_id1).unwrap().unwrap();
    repo.update_returned(UpdateReturned {
        checkout_id: co1.id,
        book_id: book_id1,
        returned_by: user_id1,
        returned_at: 11,
    })
    .unwrap();

    repo.create(CreateCheckout { book_id: book_id1, checked_out_by: user_id2, checked_out_at: 20 })
        .unwrap();
    let co2 = repo.find_unreturned_by_book_id(book_id1).unwrap().unwrap();
    repo.update_returned(UpdateReturned {
        checkout_id: co2.id,
        book_id: book_id1,
        returned_by: user_id2,
        returned_at: 21,
    })
    .unwrap();

    let hist = repo.find_history_by_book_id(book_id1).unwrap();
    assert_eq!(hist.len(), 2);
    assert_eq!(hist[0].checked_out_by, user_id2);
    assert_eq!(hist[1].checked_out_by, user_id1);
    assert!(hist[0].checked_out_at >= hist[1].checked_out_at);
}

// The active loan heads the history even when its checkout time is older
// than archived entries; the archived entries stand newest first.
#[test]
fn history_puts_active_loan_first_regardless_of_time() {
    let (mut repo, user_id1, user_id2, book_id1) = init_repo();

    // archive a loan with a late checkout time
    repo.create(CreateCheckout { book_id: book_id1, checked_out_by: user_id1, checked_out_at: 100 })
        .unwrap();
    let co1 = repo.find_unreturned_by_book_id(book_id1).unwrap().unwrap();
    repo.update_returned(UpdateReturned {
        checkout_id: co1.id,
        book_id: book_id1,
        returned_by: user_id1,
        returned_at: 101,
    })
    .unwrap();

    // the now-active loan carries an *earlier* checkout time
    repo.create(CreateCheckout { book_id: book_id1, checked_out_by: user_id2, checked_out_at: 5 })
        .unwrap();

    let hist = repo.find_history_by_book_id(book_id1).unwrap();
    assert_eq!(hist.len(), 2);
    // the active loan comes first although its timestamp is older
    assert!(hist[0].returned_at.is_none());
    assert_eq!(hist[0].checked_out_at, 5);
    assert_eq!(hist[1].checked_out_at, 100);
}

// Archived entries of one book stand in descending checkout-time order.
#[test]
fn history_archive_is_newest_first() {
    let (mut repo, user_id1, user_id2, book_id1) = init_repo();

    for t in [10i64, 30, 20] {
        let by = if t == 30 { user_id2 } else { user_id1 };
        repo.create(CreateCheckout { book_id: book_id1, checked_out_by: by, checked_out_at: t })
            .unwrap();
        let co = repo.find_unreturned_by_book_id(book_id1).unwrap().unwrap();
        repo.update_returned(UpdateReturned {
            checkout_id: co.id,
            book_id: book_id1,
            returned_by: by,
            returned_at: t + 1,
        })
        .unwrap();
    }

    let hist = repo.find_history_by_book_id(book_id1).unwrap();
    assert_eq!(hist.len(), 3);
    assert_eq!(hist[0].checked_out_at, 30);
    assert_eq!(hist[1].checked_out_at, 20);
    assert_eq!(hist[2].checked_out_at, 10);
}

// The active listings never show a loan that stands in the archive.
#[test]
fn active_listings_exclude_returned_loans() {
    let (mut repo, user_id1, _user_id2, book_id1) = init_repo();
    let book_id2 = BookId(11);
    repo.register_book(BookRecord {
        book_id: book_id2,
        title: "another title".to_string(),
        author: "another author".to_string(),
        isbn: "another isbn".to_string(),
    })
    .unwrap();

    repo.create(CreateCheckout { book_id: book_id1, checked_out_by: user_id1, checked_out_at: 10 })
        .unwrap();
    repo.create(CreateCheckout { book_id: book_id2, checked_out_by: user_id1, checked_out_at: 11 })
        .unwrap();
    let co1 = repo.find_unreturned_by_book_id(book_id1).unwrap().unwrap();
    repo.update_returned(UpdateReturned {
        checkout_id: co1.id,
        book_id: book_id1,
        returned_by: user_id1,
        returned_at: 12,
    })
    .unwrap();

    let all = repo.find_unreturned_all().unwrap();
    assert_eq!(all.len(), 1);
    assert!(all.iter().all(|c| c.id != co1.id));
    let mine = repo.find_unreturned_by_user_id(user_id1).unwrap();
    assert_eq!(mine.len(), 1);
    assert!(mine.iter().all(|c| c.id != co1.id));
}

// The active listing is ordered by checkout time, oldest first, across
// several books.
#[test]
fn active_listing_is_oldest_first() {
    let (mut repo, user_id1, _user_id2, book_id1) = init_repo();
    let book_id2 = BookId(11);
    let book_id3 = BookId(12);
    for id in [book_id2, book_id3] {
        repo.register_book(BookRecord {
            book_id: id,
            title: "t".to_string(),
            author: "a".to_string(),
            isbn: "i".to_string(),
        })
        .unwrap();
    }

    repo.create(CreateCheckout { book_id: book_id1, checked_out_by: user_id1, checked_out_at: 50 })
        .unwrap();
    repo.create(CreateCheckout { book_id: book_id2, checked_out_by: user_id1, checked_out_at: 10 })
        .unwrap();
    repo.create(CreateCheckout { book_id: book_id3, checked_out_by: user_id1, checked_out_at: 30 })
        .unwrap();

    let all = repo.find_unreturned_all().unwrap();
    assert_eq!(all.len(), 3);
    assert_eq!(all[0].checked_out_at, 10);
    assert_eq!(all[1].checked_out_at, 30);
    assert_eq!(all[2].checked_out_at, 50);
}

// A return against a book without an active loan, naming a loan id that is
// active nowhere, trips the zero-rows write guard.
#[test]
fn return_without_active_loan_fails_write_guard() {
    let (mut repo, user_id1, _user_id2, book_id1) = init_repo();

    let res = repo.update_returned(UpdateReturned {
        checkout_id: CheckoutId(777),
        book_id: book_id1,
        returned_by: user_id1,
        returned_at: 10,
    });
    assert!(matches!(res, Err(AppError::NoRowAffectedError(_))));
    assert_eq!(repo.find_history_by_book_id(book_id1).unwrap().len(), 0);
}

// The pass-through on the return path: when the named book has no active
// loan, the archive step looks the loan up by id alone, and so moves a
// matching loan of a different book. The store implementation behaves so;
// the ledger reproduces it and spells it out rather than widening the
// precondition.
#[test]
fn return_pass_through_moves_loan_by_id() {
    let (mut repo, user_id1, _user_id2, book_id1) = init_repo();
    let book_id2 = BookId(11);
    repo.register_book(BookRecord {
        book_id: book_id2,
        title: "t".to_string(),
        author: "a".to_string(),
        isbn: "i".to_string(),
    })
    .unwrap();

    // only book_id2 is on loan
    repo.create(CreateCheckout { book_id: book_id2, checked_out_by: user_id1, checked_out_at: 10 })
        .unwrap();
    let co = repo.find_unreturned_by_book_id(book_id2).unwrap().unwrap();

    // the return names book_id1, which has no active loan, but carries
    // book_id2's loan id: the precondition passes it through and the
    // archive step moves book_id2's loan
    repo.update_returned(UpdateReturned {
        checkout_id: co.id,
        book_id: book_id1,
        returned_by: user_id1,
        returned_at: 11,
    })
    .unwrap();
    assert!(repo.find_unreturned_by_book_id(book_id2).unwrap().is_none());
    assert_eq!(repo.find_history_by_book_id(book_id2).unwrap().len(), 1);
}

// A second registration of the same book id fails as the store's key
// violation would.
#[test]
fn duplicate_book_registration_fails() {
    let (mut repo, _user_id1, _user_id2, book_id1) = init_repo();
    let res = repo.register_book(BookRecord {
        book_id: book_id1,
        title: "again".to_string(),
        author: "again".to_string(),
        isbn: "again".to_string(),
    });
    assert!(matches!(res, Err(AppError::SpecificOperationError(_))));
}

// Loan views carry the registered book's descriptive data.
#[test]
fn loan_view_joins_book_data() {
    let (mut repo, user_id1, _user_id2, book_id1) = init_repo();
    repo.create(CreateCheckout { book_id: book_id1, checked_out_by: user_id1, checked_out_at: 10 })
        .unwrap();
    let co = repo.find_unreturned_by_book_id(book_id1).unwrap().unwrap();
    assert_eq!(co.book.title, "a title");
    assert_eq!(co.book.author, "an author");
    assert_eq!(co.book.isbn, "an isbn");
    assert_eq!(co.checked_out_at, 10);
}
