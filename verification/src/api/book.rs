//! Request and response models for books and their loans.
//!
//! Requests carry their validation rules; responses are the projections a
//! transport layer serializes. The serialized copies themselves live with
//! the transport code, outside the library.

use vstd::prelude::*;

use crate::error::{AppError, AppResult};
use crate::model::book::{Book, BookListOptions, Checkout, CreateBook, UpdateBook};
use crate::model::id::{BookId, CheckoutId, UserId};
use crate::model::list::PaginatedList;
use crate::model::user::{BookOwner, CheckoutUser};

verus! {

/// The default page size of a book listing.
pub const DEFAULT_LIMIT: i64 = 20;

/// The page size used when a listing query names none.
pub fn default_limit() -> (res: i64)
    ensures
        res == DEFAULT_LIMIT,
{
    DEFAULT_LIMIT
}

/// A request to register a book.
pub struct CreateBookRequest {
    pub title: String,
    pub author: String,
    pub isbn: String,
    pub description: String,
}

impl CreateBookRequest {
    /// The validation rule: title, author and isbn must not be empty.
    pub open spec fn spec_valid(&self) -> bool {
        self.title@.len() > 0 && self.author@.len() > 0 && self.isbn@.len() > 0
    }

    /// Validate the request, as the boundary does before acting on it.
    pub fn validate(&self) -> (res: AppResult<()>)
        ensures
            self.spec_valid() ==> res matches Ok(_),
            !self.spec_valid() ==> {
                &&& res matches Err(e)
                &&& e matches AppError::ValidationError(_)
            },
    {
        if self.title.as_str().is_empty() || self.author.as_str().is_empty()
            || self.isbn.as_str().is_empty() {
            Err(AppError::ValidationError("title, author and isbn must not be empty".to_owned()))
        } else {
            Ok(())
        }
    }
}

impl CreateBook {
    /// What a create request asks to register.
    pub fn from(value: CreateBookRequest) -> (res: Self)
        ensures
            res.title == value.title,
            res.author == value.author,
            res.isbn == value.isbn,
            res.description == value.description,
    {
        let CreateBookRequest { title, author, isbn, description } = value;
        CreateBook { title, author, isbn, description }
    }
}

/// A request to update a book's descriptive data.
pub struct UpdateBookRequest {
    pub title: String,
    pub author: String,
    pub isbn: String,
    pub description: String,
}

impl UpdateBookRequest {
    /// The validation rule: title, author and isbn must not be empty.
    pub open spec fn spec_valid(&self) -> bool {
        self.title@.len() > 0 && self.author@.len() > 0 && self.isbn@.len() > 0
    }

    /// Validate the request, as the boundary does before acting on it.
    pub fn validate(&self) -> (res: AppResult<()>)
        ensures
            self.spec_valid() ==> res matches Ok(_),
            !self.spec_valid() ==> {
                &&& res matches Err(e)
                &&& e matches AppError::ValidationError(_)
            },
    {
        if self.title.as_str().is_empty() || self.author.as_str().is_empty()
            || self.isbn.as_str().is_empty() {
            Err(AppError::ValidationError("title, author and isbn must not be empty".to_owned()))
        } else {
            Ok(())
        }
    }
}

/// The book id from the request path, the caller's user id, and the update
/// request, gathered so that they convert to one update event.
pub struct UpdateBookRequestWithIds(pub BookId, pub UserId, pub UpdateBookRequest);

impl UpdateBookRequestWithIds {
    /// Gather the three request parts.
    pub fn new(book_id: BookId, user_id: UserId, req: UpdateBookRequest) -> (res: Self)
        ensures
            res.0 == book_id,
            res.1 == user_id,
            res.2 == req,
    {
        UpdateBookRequestWithIds(book_id, user_id, req)
    }
}

impl UpdateBook {
    /// What an update request asks to change, and for whom.
    pub fn from(value: UpdateBookRequestWithIds) -> (res: Self)
        ensures
            res.book_id == value.0,
            res.requested_user == value.1,
            res.title == value.2.title,
            res.author == value.2.author,
            res.isbn == value.2.isbn,
            res.description == value.2.description,
    {
        let UpdateBookRequestWithIds(
            book_id,
            user_id,
            UpdateBookRequest { title, author, isbn, description },
        ) = value;
        UpdateBook { book_id, title, author, isbn, description, requested_user: user_id }
    }
}

/// The limit and offset of a listing request. A request that names
/// neither gets `DEFAULT_LIMIT` and offset 0.
pub struct BookListQuery {
    pub limit: i64,
    pub offset: i64,
}

impl BookListQuery {
    /// The validation rule: limit and offset must not be negative.
    pub open spec fn spec_valid(&self) -> bool {
        self.limit >= 0 && self.offset >= 0
    }

    /// Validate the query, as the boundary does before acting on it.
    pub fn validate(&self) -> (res: AppResult<()>)
        ensures
            self.spec_valid() ==> res matches Ok(_),
            !self.spec_valid() ==> {
                &&& res matches Err(e)
                &&& e matches AppError::ValidationError(_)
            },
    {
        if self.limit < 0 || self.offset < 0 {
            Err(AppError::ValidationError("limit and offset must not be negative".to_owned()))
        } else {
            Ok(())
        }
    }
}

impl BookListOptions {
    /// The listing range a query asks for.
    pub fn from(value: BookListQuery) -> (res: Self)
        ensures
            res.limit == value.limit,
            res.offset == value.offset,
    {
        let BookListQuery { limit, offset } = value;
        BookListOptions { limit, offset }
    }
}

/// The loan part of a book response.
pub struct BookCheckoutResponse {
    pub id: CheckoutId,
    pub checked_out_by: CheckoutUser,
    pub checked_out_at: i64,
}

/// The response view of a book's current loan.
pub open spec fn book_checkout_response_of(c: Checkout) -> BookCheckoutResponse {
    BookCheckoutResponse {
        id: c.checkout_id,
        checked_out_by: c.checked_out_by,
        checked_out_at: c.checked_out_at,
    }
}

impl BookCheckoutResponse {
    /// The response view of a book's current loan.
    pub fn from(value: Checkout) -> (res: Self)
        ensures
            res == book_checkout_response_of(value),
    {
        let Checkout { checkout_id, checked_out_by, checked_out_at } = value;
        BookCheckoutResponse { id: checkout_id, checked_out_by, checked_out_at }
    }
}

/// A book as a listing presents it: its descriptive data, its owner, and
/// its current loan, if any.
pub struct BookResponse {
    pub id: BookId,
    pub title: String,
    pub author: String,
    pub isbn: String,
    pub description: String,
    pub owner: BookOwner,
    pub checkout: Option<BookCheckoutResponse>,
}

/// The response view of a book.
pub open spec fn book_response_of(b: Book) -> BookResponse {
    BookResponse {
        id: b.id,
        title: b.title,
        author: b.author,
        isbn: b.isbn,
        description: b.description,
        owner: b.owner,
        checkout: match b.checkout {
            Some(c) => Some(book_checkout_response_of(c)),
            None => None,
        },
    }
}

impl BookResponse {
    /// The response view of a book.
    pub fn from(value: Book) -> (res: Self)
        ensures
            res == book_response_of(value),
    {
        let Book { id, title, author, isbn, description, owner, checkout } = value;
        BookResponse {
            id,
            title,
            author,
            isbn,
            description,
            owner,
            checkout: match checkout {
                Some(c) => Some(BookCheckoutResponse::from(c)),
                None => None,
            },
        }
    }
}

/// One page of a book listing.
pub struct PaginatedBookResponse {
    pub total: i64,
    pub limit: i64,
    pub offset: i64,
    pub items: Vec<BookResponse>,
}

impl PaginatedBookResponse {
    /// The response view of one page of books: the same range, each book
    /// projected to its response view, in order.
    pub fn from(value: PaginatedList<Book>) -> (res: Self)
        ensures
            res.total == value.total,
            res.limit == value.limit,
            res.offset == value.offset,
            res.items@ == value.items@.map_values(|b: Book| book_response_of(b)),
    {
        let PaginatedList { total, limit, offset, items } = value;
        let ghost items0 = items@;
        let mut out: Vec<BookResponse> = Vec::new();
        for b in it: items.into_iter()
            invariant
                it.seq() == items0,
                out@ == items0.take(it.index()).map_values(|b: Book| book_response_of(b)),
        {
            let ghost i = it.index();
            out.push(BookResponse::from(b));
            proof {
                let f = |b: Book| book_response_of(b);
                assert(items0.take(i + 1) =~= items0.take(i).push(items0[i]));
                assert(items0.take(i + 1).map_values(f) =~= items0.take(i).map_values(f).push(
                    f(items0[i]),
                ));
            }
        }
        proof {
            assert(items0.take(items0.len() as int) =~= items0);
        }
        PaginatedBookResponse { total, limit, offset, items: out }
    }
}

} // verus!
