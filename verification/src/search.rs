//! The search for a HIP library: which place is tried next, and what is made of
//! what was found there.

use crate::error::Error;
use crate::library::{path_views, texts, LibraryPath, PathModel};
use vstd::prelude::*;

verus! {

/// What comes of looking up an entry point: what was found, or an error that
/// names the library, the entry point and the reason.
pub fn load_symbol<T: Copy>(
    found: Result<T, String>,
    library_path: &LibraryPath,
    symbol_name: &'static str,
) -> (result: Result<T, Error>)
    ensures
        match found {
            Ok(symbol) => result == Ok::<T, Error>(symbol),
            Err(reason) => result matches Err(Error::SymbolLoad { library, symbol, error })
                && library@ == library_path@ && symbol == symbol_name && error == reason,
        },
{
    match found {
        Ok(symbol) => Ok(symbol),
        Err(error) => Err(
            Error::SymbolLoad { library: library_path.clone(), symbol: symbol_name, error },
        ),
    }
}

/// How far a search is: the places and the entry points it is about, the place
/// that is being tried, and the entry point that is being looked up there, or
/// none while the place has not been opened.
pub struct SearchState {
    pub places: Seq<PathModel>,
    pub symbols: Seq<Seq<char>>,
    pub place: nat,
    pub symbol: Option<nat>,
}

/// What a search comes to next.
pub enum SearchNext {
    /// It goes on.
    Continue(SearchState),
    /// A library with all entry points lies here.
    Found(PathModel),
    /// None of these places has a library.
    NotFound(Seq<PathModel>),
    /// The library lacks an entry point, for this reason.
    Missing { library: PathModel, symbol: Seq<char>, reason: Seq<char> },
}

impl SearchNext {
    /// How many places are still to be settled.
    pub open spec fn places_left(self) -> int {
        match self {
            SearchNext::Continue(state) => state.places.len() - state.place,
            _ => 0,
        }
    }

    /// How many attempts the current place still takes.
    pub open spec fn symbols_left(self) -> int {
        match self {
            SearchNext::Continue(state) => match state.symbol {
                Some(s) => state.symbols.len() - s,
                None => state.symbols.len() as int + 1,
            },
            _ => 0,
        }
    }
}

impl SearchState {
    pub open spec fn wf(self) -> bool {
        &&& self.place < self.places.len()
        &&& self.symbol matches Some(s) ==> s < self.symbols.len()
    }

    /// The search at its beginning: the first place is tried, if there is any.
    pub open spec fn start(places: Seq<PathModel>, symbols: Seq<Seq<char>>) -> SearchNext {
        if places.len() == 0 {
            SearchNext::NotFound(places)
        } else {
            SearchNext::Continue(SearchState { places, symbols, place: 0, symbol: None })
        }
    }

    /// A place that opens is settled on: its entry points are looked up one
    /// after the other. One that does not is passed over.
    pub open spec fn after_opening(self, opened: bool) -> SearchNext {
        if opened {
            if self.symbols.len() == 0 {
                SearchNext::Found(self.places[self.place as int])
            } else {
                SearchNext::Continue(SearchState { symbol: Some(0), ..self })
            }
        } else if self.place + 1 < self.places.len() {
            SearchNext::Continue(SearchState { place: self.place + 1, ..self })
        } else {
            SearchNext::NotFound(self.places)
        }
    }

    /// The first entry point that is missing ends the search. `failure` is the
    /// reason why the current one is, or none where it was found.
    pub open spec fn after_lookup(self, failure: Option<Seq<char>>) -> SearchNext {
        let s = self.symbol->0;
        match failure {
            Some(reason) => SearchNext::Missing {
                library: self.places[self.place as int],
                symbol: self.symbols[s as int],
                reason,
            },
            None => if s + 1 < self.symbols.len() {
                SearchNext::Continue(SearchState { symbol: Some(s + 1), ..self })
            } else {
                SearchNext::Found(self.places[self.place as int])
            },
        }
    }
}

/// A search for a library.
#[derive(Debug)]
pub struct LibrarySearch {
    candidates: Vec<LibraryPath>,
    symbols: Vec<&'static str>,
    index: usize,
    symbol: Option<usize>,
}

/// What a search comes to next: it goes on, or ends with the place of the
/// library or the reason why there is none.
#[derive(Debug)]
pub enum SearchStep {
    Continue(LibrarySearch),
    Finished(Result<LibraryPath, Error>),
}

impl View for LibrarySearch {
    type V = SearchState;

    closed spec fn view(&self) -> SearchState {
        SearchState {
            places: path_views(self.candidates@),
            symbols: texts(self.symbols@),
            place: self.index as nat,
            symbol: match self.symbol {
                Some(s) => Some(s as nat),
                None => None,
            },
        }
    }
}

impl SearchStep {
    /// The step is what `next` says.
    pub open spec fn is(self, next: SearchNext) -> bool {
        match next {
            SearchNext::Continue(state) => self matches SearchStep::Continue(search) && search@
                == state,
            SearchNext::Found(place) => self matches SearchStep::Finished(Ok(path)) && path@
                == place,
            SearchNext::NotFound(places) => self matches SearchStep::Finished(
                Err(Error::LibraryNotFound { candidates }),
            ) && path_views(candidates@) == places,
            SearchNext::Missing { library: l, symbol: s, reason: r } => self
                matches SearchStep::Finished(Err(Error::SymbolLoad { library, symbol, error }))
                && library@ == l && symbol@ == s && error@ == r,
        }
    }
}

impl LibrarySearch {
    #[verifier::type_invariant]
    spec fn inv(self) -> bool {
        self@.wf()
    }

    /// A search of `candidates` for a library with the entry points `symbols`.
    pub fn start(candidates: Vec<LibraryPath>, symbols: Vec<&'static str>) -> (step: SearchStep)
        ensures
            step.is(SearchState::start(path_views(candidates@), texts(symbols@))),
    {
        if candidates.len() == 0 {
            SearchStep::Finished(Err(Error::LibraryNotFound { candidates }))
        } else {
            SearchStep::Continue(LibrarySearch { candidates, symbols, index: 0, symbol: None })
        }
    }

    /// The place that is being tried.
    pub fn place(&self) -> (place: &LibraryPath)
        ensures
            self@.wf(),
            place@ == self@.places[self@.place as int],
    {
        proof {
            use_type_invariant(self);
        }
        &self.candidates[self.index]
    }

    /// The entry point that is being looked up, or none while the place has to be opened.
    pub fn symbol(&self) -> (symbol: Option<&'static str>)
        ensures
            symbol is Some <==> self@.symbol is Some,
            symbol matches Some(name) ==> name@ == self@.symbols[self@.symbol->0 as int],
    {
        proof {
            use_type_invariant(self);
        }
        match self.symbol {
            Some(s) => Some(self.symbols[s]),
            None => None,
        }
    }

    /// Goes on after the attempt to open the place.
    pub fn opened(self, opened: bool) -> (step: SearchStep)
        requires
            self@.symbol is None,
        ensures
            step.is(self@.after_opening(opened)),
    {
        proof {
            use_type_invariant(&self);
        }
        let LibrarySearch { candidates, symbols, index, symbol } = self;
        if opened {
            if symbols.len() == 0 {
                SearchStep::Finished(Ok(candidates[index].clone()))
            } else {
                SearchStep::Continue(
                    LibrarySearch { candidates, symbols, index, symbol: Some(0) },
                )
            }
        } else if index < candidates.len() - 1 {
            SearchStep::Continue(
                LibrarySearch { candidates, symbols, index: index + 1, symbol: None },
            )
        } else {
            SearchStep::Finished(Err(Error::LibraryNotFound { candidates }))
        }
    }

    /// Goes on after the lookup of the entry point.
    pub fn resolved(self, found: Result<(), String>) -> (step: SearchStep)
        requires
            self@.symbol is Some,
        ensures
            step.is(
                self@.after_lookup(
                    match found {
                        Ok(_) => None,
                        Err(reason) => Some(reason@),
                    },
                ),
            ),
    {
        proof {
            use_type_invariant(&self);
        }
        let LibrarySearch { candidates, symbols, index, symbol } = self;
        let s: usize = match symbol {
            Some(s) => s,
            None => 0,
        };
        match load_symbol(found, &candidates[index], symbols[s]) {
            Ok(()) => {
                if s < symbols.len() - 1 {
                    SearchStep::Continue(
                        LibrarySearch { candidates, symbols, index, symbol: Some(s + 1) },
                    )
                } else {
                    SearchStep::Finished(Ok(candidates[index].clone()))
                }
            },
            Err(error) => SearchStep::Finished(Err(error)),
        }
    }
}

/// Where a search ends on a system where the places that open are those in
/// `opens`, and `failure` gives for a place and an entry point the reason why
/// it is missing there.
pub open spec fn verdict(
    next: SearchNext,
    opens: spec_fn(nat) -> bool,
    failure: spec_fn(nat, nat) -> Option<Seq<char>>,
) -> SearchNext
    decreases next.places_left(), next.symbols_left(),
{
    match next {
        SearchNext::Continue(state) if state.wf() => match state.symbol {
            None => verdict(state.after_opening(opens(state.place)), opens, failure),
            Some(s) => verdict(state.after_lookup(failure(state.place, s)), opens, failure),
        },
        _ => next,
    }
}

/// Where a search for `symbols` in `places` ends.
pub open spec fn search_verdict(
    places: Seq<PathModel>,
    symbols: Seq<Seq<char>>,
    opens: spec_fn(nat) -> bool,
    failure: spec_fn(nat, nat) -> Option<Seq<char>>,
) -> SearchNext {
    verdict(SearchState::start(places, symbols), opens, failure)
}

/// The search passes over the places that do not open.
proof fn lemma_passes_over(
    state: SearchState,
    first: nat,
    opens: spec_fn(nat) -> bool,
    failure: spec_fn(nat, nat) -> Option<Seq<char>>,
)
    requires
        state.wf(),
        state.symbol is None,
        state.place <= first < state.places.len(),
        forall|i: nat| state.place <= i < first ==> !(#[trigger] opens(i)),
    ensures
        verdict(SearchNext::Continue(state), opens, failure) == verdict(
            SearchNext::Continue(SearchState { place: first, ..state }),
            opens,
            failure,
        ),
    decreases first - state.place,
{
    if state.place < first {
        assert(!opens(state.place));
        lemma_passes_over(
            SearchState { place: state.place + 1, ..state },
            first,
            opens,
            failure,
        );
    } else {
        assert(state == SearchState { place: first, ..state });
    }
}

/// The search goes on over the entry points that are found.
proof fn lemma_looks_up(
    state: SearchState,
    first: nat,
    opens: spec_fn(nat) -> bool,
    failure: spec_fn(nat, nat) -> Option<Seq<char>>,
)
    requires
        state.wf(),
        state.symbol is Some,
        state.symbol->0 <= first < state.symbols.len(),
        forall|s: nat| state.symbol->0 <= s < first ==> (#[trigger] failure(state.place, s)) is None,
    ensures
        verdict(SearchNext::Continue(state), opens, failure) == verdict(
            SearchNext::Continue(SearchState { symbol: Some(first), ..state }),
            opens,
            failure,
        ),
    decreases first - state.symbol->0,
{
    let s = state.symbol->0;
    if s < first {
        assert(failure(state.place, s) is None);
        lemma_looks_up(SearchState { symbol: Some(s + 1), ..state }, first, opens, failure);
    } else {
        assert(state == SearchState { symbol: Some(first), ..state });
    }
}

/// The first place that opens decides: where it has all entry points the
/// library is found there, whatever the later places hold.
pub proof fn law_first_place_that_opens_is_taken(
    places: Seq<PathModel>,
    symbols: Seq<Seq<char>>,
    opens: spec_fn(nat) -> bool,
    failure: spec_fn(nat, nat) -> Option<Seq<char>>,
    first: nat,
)
    requires
        first < places.len(),
        opens(first),
        forall|i: nat| i < first ==> !(#[trigger] opens(i)),
        forall|s: nat| s < symbols.len() ==> (#[trigger] failure(first, s)) is None,
    ensures
        search_verdict(places, symbols, opens, failure) == SearchNext::Found(places[first as int]),
{
    let start = SearchState { places, symbols, place: 0, symbol: None };
    lemma_passes_over(start, first, opens, failure);
    let there = SearchState { place: first, ..start };
    if symbols.len() > 0 {
        let last = (symbols.len() - 1) as nat;
        assert(verdict(SearchNext::Continue(there), opens, failure) == verdict(
            there.after_opening(true),
            opens,
            failure,
        ));
        lemma_looks_up(SearchState { symbol: Some(0), ..there }, last, opens, failure);
        let end = SearchState { symbol: Some(last), ..there };
        assert(failure(first, last) is None);
        assert(verdict(SearchNext::Continue(end), opens, failure) == verdict(
            end.after_lookup(None),
            opens,
            failure,
        ));
    } else {
        assert(verdict(SearchNext::Continue(there), opens, failure) == verdict(
            there.after_opening(true),
            opens,
            failure,
        ));
    }
}

/// The first place that opens decides: where it lacks an entry point the search
/// fails with the first that is missing, though a later place may have it.
pub proof fn law_first_missing_symbol_is_reported(
    places: Seq<PathModel>,
    symbols: Seq<Seq<char>>,
    opens: spec_fn(nat) -> bool,
    failure: spec_fn(nat, nat) -> Option<Seq<char>>,
    first: nat,
    missing: nat,
)
    requires
        first < places.len(),
        opens(first),
        forall|i: nat| i < first ==> !(#[trigger] opens(i)),
        missing < symbols.len(),
        failure(first, missing) is Some,
        forall|s: nat| s < missing ==> (#[trigger] failure(first, s)) is None,
    ensures
        search_verdict(places, symbols, opens, failure) == (SearchNext::Missing {
            library: places[first as int],
            symbol: symbols[missing as int],
            reason: failure(first, missing)->0,
        }),
{
    let start = SearchState { places, symbols, place: 0, symbol: None };
    lemma_passes_over(start, first, opens, failure);
    let there = SearchState { place: first, ..start };
    assert(verdict(SearchNext::Continue(there), opens, failure) == verdict(
        there.after_opening(true),
        opens,
        failure,
    ));
    lemma_looks_up(SearchState { symbol: Some(0), ..there }, missing, opens, failure);
    let end = SearchState { symbol: Some(missing), ..there };
    assert(verdict(SearchNext::Continue(end), opens, failure) == verdict(
        end.after_lookup(failure(first, missing)),
        opens,
        failure,
    ));
}

/// Where no place opens, the search fails and names every place that it tried.
pub proof fn law_no_place_opens(
    places: Seq<PathModel>,
    symbols: Seq<Seq<char>>,
    opens: spec_fn(nat) -> bool,
    failure: spec_fn(nat, nat) -> Option<Seq<char>>,
)
    requires
        forall|i: nat| i < places.len() ==> !(#[trigger] opens(i)),
    ensures
        search_verdict(places, symbols, opens, failure) == SearchNext::NotFound(places),
{
    if places.len() > 0 {
        let start = SearchState { places, symbols, place: 0, symbol: None };
        let last = (places.len() - 1) as nat;
        lemma_passes_over(start, last, opens, failure);
        let end = SearchState { place: last, ..start };
        assert(!opens(last));
        assert(verdict(SearchNext::Continue(end), opens, failure) == verdict(
            end.after_opening(false),
            opens,
            failure,
        ));
    }
}

/// A step says what the search came to: it goes on from the state it is in, or
/// ends with the place that was found, with every place that was tried, or with
/// the library, the entry point and the reason.
pub proof fn law_steps(step: SearchStep, next: SearchNext)
    requires
        step.is(next),
    ensures
        match step {
            SearchStep::Continue(search) => next == SearchNext::Continue(search@),
            SearchStep::Finished(Ok(path)) => next == SearchNext::Found(path@),
            SearchStep::Finished(Err(Error::LibraryNotFound { candidates })) => next
                matches SearchNext::NotFound(places) && places.len() == candidates@.len() && (
            forall|i: int| 0 <= i < places.len() ==> #[trigger] places[i] == candidates@[i]@),
            SearchStep::Finished(Err(Error::SymbolLoad { library, symbol, error })) => next
                == (SearchNext::Missing { library: library@, symbol: symbol@, reason: error@ }),
            _ => false,
        },
{
}

} // verus!
