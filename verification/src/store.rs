//! The quote store: the entries of a loaded database, never empty, from
//! which one quote at a time is drawn at random.

use crate::database::{entries, parse_entries, strings_view};
use rand::Rng;
use vstd::prelude::*;

verus! {

/// Why no quote store could be made.
#[derive(Debug, Clone, Copy, PartialEq, Eq, Structural)]
pub enum LoadError {
    /// The database holds no entry.
    Empty,
}

/// The quotes of a database, in file order. A store holds at least one.
#[derive(Debug)]
pub struct QuoteStore {
    entries: Vec<String>,
}

impl View for QuoteStore {
    type V = Seq<Seq<char>>;

    closed spec fn view(&self) -> Seq<Seq<char>> {
        strings_view(self.entries@)
    }
}

/// Draws a number below `len` with `rand::thread_rng().gen_range(0..len)`.
/// Which number comes is left open; an empty range, on which `gen_range`
/// panics, is excluded.
#[verifier::external_body]
fn random_below(len: usize) -> (index: usize)
    requires
        len > 0,
    ensures
        index < len,
{
    rand::thread_rng().gen_range(0..len)
}

impl QuoteStore {
    /// A store is never empty.
    #[verifier::type_invariant]
    spec fn populated(self) -> bool {
        self.entries@.len() > 0
    }

    /// Makes a store of `quotes`, which must hold at least one.
    pub fn new(quotes: Vec<String>) -> (made: Result<QuoteStore, LoadError>)
        ensures
            made is Ok <==> quotes@.len() > 0,
            made matches Ok(store) ==> store@ == strings_view(quotes@),
            made matches Err(e) ==> e == LoadError::Empty,
    {
        if quotes.len() == 0 {
            Err(LoadError::Empty)
        } else {
            Ok(QuoteStore { entries: quotes })
        }
    }

    /// The number of quotes, which is never zero.
    pub fn len(&self) -> (n: usize)
        ensures
            n == self@.len(),
            n > 0,
    {
        proof {
            use_type_invariant(self);
        }
        self.entries.len()
    }

    /// All quotes, in file order.
    pub fn quotes(&self) -> (all: &Vec<String>)
        ensures
            strings_view(all@) == self@,
    {
        &self.entries
    }

    /// The quote at `index`, if the store has that many.
    pub fn get(&self, index: usize) -> (quote: Option<&String>)
        ensures
            quote is Some <==> index < self@.len(),
            quote matches Some(q) ==> q@ == self@[index as int],
    {
        if index < self.entries.len() {
            Some(&self.entries[index])
        } else {
            None
        }
    }

    /// One quote of the store, drawn at random.
    pub fn get_random_entry(&self) -> (quote: String)
        ensures
            self@.contains(quote@),
    {
        proof {
            use_type_invariant(self);
        }
        let index = random_below(self.entries.len());
        let quote = self.entries[index].clone();
        assert(self@[index as int] == quote@);
        quote
    }
}

/// Loads the quote store from the database text `text`, whose separator the
/// format `format` names.
///
/// A database without entries is refused. As the format is defined, every
/// text has at least one entry (`lemma_entries_exist`), be it the empty one.
pub fn load_database(text: &str, format: &str) -> (loaded: Result<QuoteStore, LoadError>)
    ensures
        loaded is Ok <==> entries(text@, format@).len() > 0,
        loaded matches Ok(store) ==> store@ == entries(text@, format@),
        loaded matches Err(e) ==> e == LoadError::Empty,
{
    QuoteStore::new(parse_entries(text, format))
}

} // verus!
