use vstd::prelude::*;

verus! {

/// Number of most recent prices kept for each token.
pub const WINDOW: usize = 14;

/// The window that results from appending `price` to `prices`: the oldest
/// price is evicted once the window would exceed `WINDOW`.
pub open spec fn push_window(prices: Seq<u64>, price: u64) -> Seq<u64> {
    let s = prices.push(price);
    if s.len() > WINDOW {
        s.drop_first()
    } else {
        s
    }
}

/// The last `min(s.len(), WINDOW)` elements of `s`, in order.
pub open spec fn last_window(s: Seq<u64>) -> Seq<u64> {
    if s.len() > WINDOW {
        s.subrange(s.len() - WINDOW, s.len() as int)
    } else {
        s
    }
}

/// The history of `token` in `m`; a token that is absent has an empty history.
pub open spec fn history_of(m: Map<Seq<char>, Seq<u64>>, token: Seq<char>) -> Seq<u64> {
    if m.contains_key(token) {
        m[token]
    } else {
        Seq::empty()
    }
}

/// The store after recording `price` for `token`.
pub open spec fn record_spec(m: Map<Seq<char>, Seq<u64>>, token: Seq<char>, price: u64) -> Map<
    Seq<char>,
    Seq<u64>,
> {
    m.insert(token, push_window(history_of(m, token), price))
}

/// Every history in `m` holds at most `WINDOW` prices.
pub open spec fn windows_bounded(m: Map<Seq<char>, Seq<u64>>) -> bool {
    forall|k: Seq<char>| #[trigger] m.contains_key(k) ==> m[k].len() <= WINDOW
}

/// The store after recording each of `prices` for `token`, in order.
pub open spec fn record_all(m: Map<Seq<char>, Seq<u64>>, token: Seq<char>, prices: Seq<u64>) -> Map<
    Seq<char>,
    Seq<u64>,
>
    decreases prices.len(),
{
    if prices.len() == 0 {
        m
    } else {
        record_spec(record_all(m, token, prices.drop_last()), token, prices.last())
    }
}

/// Recording a run of prices for one token leaves that token with the last
/// `WINDOW` prices of its former history followed by the run, and leaves every
/// other token as it was.
pub proof fn lemma_record_all(m: Map<Seq<char>, Seq<u64>>, token: Seq<char>, prices: Seq<u64>)
    requires
        history_of(m, token).len() <= WINDOW,
    ensures
        history_of(record_all(m, token, prices), token) == last_window(
            history_of(m, token) + prices,
        ),
        forall|k: Seq<char>|
            k != token ==> #[trigger] history_of(record_all(m, token, prices), k) == history_of(
                m,
                k,
            ),
    decreases prices.len(),
{
    if prices.len() > 0 {
        let init = prices.drop_last();
        lemma_record_all(m, token, init);
        let h = history_of(m, token);
        let before = history_of(record_all(m, token, init), token);
        assert(h + prices =~= (h + init).push(prices.last()));
        assert(push_window(before, prices.last()) =~= last_window((h + init).push(prices.last())));
        assert forall|k: Seq<char>| k != token implies #[trigger] history_of(
            record_all(m, token, prices),
            k,
        ) == history_of(m, k) by {
            assert(history_of(record_all(m, token, init), k) == history_of(m, k));
        }
    } else {
        assert(history_of(m, token) + prices =~= history_of(m, token));
    }
}

/// After `N` prices are recorded for a token that had no history, its
/// history holds `min(N, WINDOW)` prices: the last ones recorded, in arrival
/// order.
pub proof fn lemma_history_is_last_recorded(
    m: Map<Seq<char>, Seq<u64>>,
    token: Seq<char>,
    prices: Seq<u64>,
)
    requires
        !m.contains_key(token),
    ensures
        history_of(record_all(m, token, prices), token) == last_window(prices),
        history_of(record_all(m, token, prices), token).len() == if prices.len() < WINDOW {
            prices.len()
        } else {
            WINDOW as nat
        },
{
    lemma_record_all(m, token, prices);
    assert(history_of(m, token) + prices =~= prices);
}

/// Only the last `WINDOW` prices recorded for a token decide its history:
/// prices recorded before them, and whatever history the token had, are
/// forgotten.
pub proof fn lemma_older_prices_forgotten(
    m1: Map<Seq<char>, Seq<u64>>,
    m2: Map<Seq<char>, Seq<u64>>,
    token: Seq<char>,
    older: Seq<u64>,
    recent: Seq<u64>,
)
    requires
        windows_bounded(m1),
        windows_bounded(m2),
        recent.len() >= WINDOW,
    ensures
        history_of(record_all(m1, token, older + recent), token) == history_of(
            record_all(m2, token, recent),
            token,
        ),
{
    lemma_record_all(m1, token, older + recent);
    lemma_record_all(m2, token, recent);
    let a = history_of(m1, token) + (older + recent);
    let b = history_of(m2, token) + recent;
    assert(last_window(a) =~= recent.subrange(recent.len() - WINDOW, recent.len() as int));
    assert(last_window(b) =~= recent.subrange(recent.len() - WINDOW, recent.len() as int));
}

/// The recent prices of one token.
pub struct TokenHistory {
    pub token: String,
    pub prices: Vec<u64>,
}

/// Per-token bounded sequences of recent prices, in arrival order.
pub struct PriceHistory {
    entries: Vec<TokenHistory>,
    model: Ghost<Map<Seq<char>, Seq<u64>>>,
}

impl View for PriceHistory {
    type V = Map<Seq<char>, Seq<u64>>;

    closed spec fn view(&self) -> Map<Seq<char>, Seq<u64>> {
        self.model@
    }
}

impl PriceHistory {
    /// Tokens are unique among the entries, the entries hold exactly the
    /// model, and no history exceeds the window.
    pub closed spec fn wf(&self) -> bool {
        &&& forall|i: int, j: int|
            0 <= i < j < self.entries@.len() ==> self.entries@[i].token@
                != self.entries@[j].token@
        &&& forall|i: int|
            0 <= i < self.entries@.len() ==> {
                &&& self.model@.contains_key(#[trigger] self.entries@[i].token@)
                &&& self.model@[self.entries@[i].token@] == self.entries@[i].prices@
            }
        &&& forall|k: Seq<char>| #[trigger]
            self.model@.contains_key(k) ==> exists|i: int|
                0 <= i < self.entries@.len() && self.entries@[i].token@ == k
        &&& windows_bounded(self.model@)
    }

    /// An empty store.
    pub fn new() -> (r: PriceHistory)
        ensures
            r.wf(),
            r@ == Map::<Seq<char>, Seq<u64>>::empty(),
    {
        PriceHistory { entries: Vec::new(), model: Ghost(Map::empty()) }
    }

    /// The histories of a well-formed store never exceed the window.
    pub proof fn lemma_bounded(&self)
        requires
            self.wf(),
        ensures
            windows_bounded(self@),
    {
    }

    /// Position of `token` among the entries, if present.
    fn find(&self, token: &String) -> (r: Option<usize>)
        requires
            self.wf(),
        ensures
            match r {
                Some(i) => i < self.entries@.len() && self.entries@[i as int].token@ == token@,
                None => !self@.contains_key(token@),
            },
    {
        let mut i: usize = 0;
        while i < self.entries.len()
            invariant
                self.wf(),
                i <= self.entries@.len(),
                forall|j: int| 0 <= j < i ==> self.entries@[j].token@ != token@,
            decreases self.entries@.len() - i,
        {
            if self.entries[i].token == *token {
                return Some(i);
            }
            i = i + 1;
        }
        None
    }

    /// The recorded prices of `token`, oldest first (empty when it has none).
    pub fn prices(&self, token: &String) -> (r: Vec<u64>)
        requires
            self.wf(),
        ensures
            r@ == history_of(self@, token@),
    {
        match self.find(token) {
            Some(i) => self.entries[i].prices.clone(),
            None => Vec::new(),
        }
    }

    /// Appends `price` to the history of `token`, evicting the oldest price
    /// when the window is exceeded, and returns the resulting history.
    pub fn record(&mut self, token: &String, price: u64) -> (r: Vec<u64>)
        requires
            old(self).wf(),
        ensures
            final(self).wf(),
            final(self)@ == record_spec(old(self)@, token@, price),
            r@ == history_of(final(self)@, token@),
            r@.len() <= WINDOW,
    {
        let found = self.find(token);
        let mut prices = match found {
            Some(i) => self.entries[i].prices.clone(),
            None => Vec::new(),
        };
        proof {
            assert(prices@ == history_of(self@, token@));
        }
        prices.push(price);
        if prices.len() > WINDOW {
            prices.remove(0);
        }
        let ghost new_model = record_spec(self@, token@, price);
        proof {
            assert(prices@ =~= push_window(history_of(self@, token@), price));
        }
        let result = prices.clone();
        match found {
            Some(i) => {
                self.entries[i] = TokenHistory { token: token.clone(), prices };
            },
            None => {
                self.entries.push(TokenHistory { token: token.clone(), prices });
            },
        }
        self.model = Ghost(new_model);
        proof {
            assert forall|k: Seq<char>| #[trigger]
                self.model@.contains_key(k) implies exists|i: int|
                    0 <= i < self.entries@.len() && self.entries@[i].token@ == k by {
                if k != token@ {
                    assert(old(self).model@.contains_key(k));
                    let j = choose|j: int|
                        0 <= j < old(self).entries@.len() && old(self).entries@[j].token@ == k;
                    assert(self.entries@[j].token@ == k);
                } else {
                    match found {
                        Some(i) => assert(self.entries@[i as int].token@ == k),
                        None => assert(self.entries@[self.entries@.len() - 1].token@ == k),
                    }
                }
            }
        }
        result
    }
}

} // verus!
