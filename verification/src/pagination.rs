//! The pagination coordinator: resolves an optional opaque token to a page
//! cursor, fetches one fixed-size page of records in creation order, and —
//! exactly when more records remain past the served page — mints a fresh
//! token for the next page.

use vstd::prelude::*;
use crate::PAGE_SIZE;
use crate::registry::{is_token_char, spec_redeem, TokenRegistry, TOKEN_LEN};
use crate::store::{page_of, QuoteRecord, QuoteStore};

verus! {

/// One page of a listing: the records served, the 1-based cursor of the
/// page a follow-up request would fetch, and the token that redeems to it,
/// present exactly when such a page exists.
#[derive(Debug)]
pub struct ListPage {
    pub quotes: Vec<QuoteRecord>,
    pub page: usize,
    pub next_token: Option<String>,
}

/// Why a listing request failed.
#[derive(Debug, PartialEq, Eq, Structural)]
pub enum ListError {
    /// The request carried a token that is unknown or already consumed.
    InvalidToken,
}

/// The page cursor a listing request starts from: page 0 with no token,
/// the token's redeemed cursor otherwise; nothing when the token misses.
pub open spec fn start_page(reg: Map<Seq<char>, usize>, token: Option<String>) -> Option<usize> {
    match token {
        Option::None => Some(0usize),
        Option::Some(t) => spec_redeem(reg, t@),
    }
}

/// The registry contents once the incoming token, if any, is consumed.
pub open spec fn consumed(reg: Map<Seq<char>, usize>, token: Option<String>) -> Map<
    Seq<char>,
    usize,
> {
    match token {
        Option::None => reg,
        Option::Some(t) => reg.remove(t@),
    }
}

/// Serves one page of the listing.
///
/// With no token the listing starts at page 0 and returns at most
/// `PAGE_SIZE` records. A given token is consumed whether or not it is
/// known; an unknown one fails the request. A `next_token` comes back if
/// and only if the record count exceeds what the served page reaches, i.e.
/// `count > (start + 1) * PAGE_SIZE`.
pub fn list_page(store: &QuoteStore, registry: &mut TokenRegistry, token: Option<String>) -> (r:
    Result<ListPage, ListError>)
    requires
        store.wf(),
        old(registry).wf(),
    ensures
        final(registry).wf(),
        r is Ok <==> start_page(old(registry)@, token) is Some,
        r is Err ==> r == Err::<ListPage, ListError>(ListError::InvalidToken) && final(registry)@
            == old(registry)@,
        r matches Ok(lp) ==> {
            let p = start_page(old(registry)@, token).unwrap();
            &&& lp.quotes@ == page_of(store@, p as int * PAGE_SIZE as int, PAGE_SIZE as int)
            &&& lp.quotes@.len() <= PAGE_SIZE
            &&& lp.page == p + 1
            &&& (lp.next_token is Some <==> store@.len() > (p + 1) * (PAGE_SIZE as int))
            &&& (lp.next_token matches Some(tok) ==> {
                &&& tok@.len() == TOKEN_LEN
                &&& (forall|i: int| 0 <= i < tok@.len() ==> is_token_char(tok@[i]))
                &&& !consumed(old(registry)@, token).contains_key(tok@)
                &&& final(registry)@ == consumed(old(registry)@, token).insert(
                    tok@,
                    (p + 1) as usize,
                )
            })
            &&& (lp.next_token is None ==> final(registry)@ == consumed(old(registry)@, token))
        },
{
    let page: usize = match &token {
        Some(t) => {
            match registry.redeem(t.as_str()) {
                Some(p) => p,
                None => {
                    proof {
                        assert(registry@ =~= old(registry)@);
                    }
                    return Err(ListError::InvalidToken);
                },
            }
        },
        None => 0,
    };
    assert(page < usize::MAX);
    let count = store.count();
    let offset: usize = match page.checked_mul(PAGE_SIZE) {
        Some(o) => o,
        None => usize::MAX,
    };
    let quotes = store.scan(offset, PAGE_SIZE);
    proof {
        if page as int * PAGE_SIZE as int > usize::MAX as int {
            assert(page_of(store@, offset as int, PAGE_SIZE as int) =~= page_of(
                store@,
                page as int * PAGE_SIZE as int,
                PAGE_SIZE as int,
            ));
        }
    }
    let next_page = page + 1;
    let more = match next_page.checked_mul(PAGE_SIZE) {
        Some(np) => count > np,
        None => false,
    };
    assert(more == (store@.len() > next_page as int * PAGE_SIZE as int));
    let next_token = if more {
        assert(next_page < usize::MAX);
        Some(registry.mint(next_page))
    } else {
        None
    };
    Ok(ListPage { quotes, page: next_page, next_token })
}

} // verus!
