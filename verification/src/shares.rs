//! Rules of the user's portfolio: tickers, buy and sell operations, and the
//! bookkeeping of model preparation.

use vstd::prelude::*;

use crate::ordering::views;
use crate::text::{
    chars_of, contains_seq, contains_str, is_ascii_alnum_char, is_ascii_alphanumeric, owned,
    push_str, str_eq, to_uppercase, trim, trim_seq, unicode_upper_text,
};

verus! {

/// Longest accepted ticker, in characters.
pub const MAX_TICKER_LEN: usize = 20;

/// The form a ticker is stored and looked up in: trimmed, then uppercased.
pub open spec fn normalized_ticker(raw: Seq<char>) -> Seq<char> {
    unicode_upper_text(trim_seq(raw))
}

/// Trims a ticker and uppercases it.
pub fn normalize_ticker(raw: &str) -> (t: String)
    ensures
        t@ == normalized_ticker(raw@),
{
    let trimmed = trim(raw);
    to_uppercase(trimmed.as_str())
}

/// 1 to 20 characters: runs of ASCII letters and digits joined by single
/// `.` separators (no `.` first, last, or next to another `.`).
pub open spec fn is_ticker(t: Seq<char>) -> bool {
    &&& 1 <= t.len() <= MAX_TICKER_LEN
    &&& forall|i: int| 0 <= i < t.len() ==> is_ascii_alnum_char(#[trigger] t[i]) || t[i] == '.'
    &&& is_ascii_alnum_char(t[0])
    &&& is_ascii_alnum_char(t.last())
    &&& forall|i: int| 0 < i < t.len() && #[trigger] t[i] == '.' ==> t[i - 1] != '.'
}

/// Whether `ticker` is a well-formed ticker.
pub fn is_valid_ticker(ticker: &str) -> (b: bool)
    ensures
        b == is_ticker(ticker@),
{
    let v = chars_of(ticker);
    let n = v.len();
    if n == 0 || n > MAX_TICKER_LEN {
        return false;
    }
    if !is_ascii_alphanumeric(v[0]) || !is_ascii_alphanumeric(v[n - 1]) {
        return false;
    }
    let mut i: usize = 0;
    while i < n
        invariant
            i <= n,
            n == v@.len(),
            v@ == ticker@,
            forall|k: int| 0 <= k < i ==> is_ascii_alnum_char(#[trigger] v@[k]) || v@[k] == '.',
            forall|k: int| 0 < k < i && #[trigger] v@[k] == '.' ==> v@[k - 1] != '.',
        decreases n - i,
    {
        let c = v[i];
        if !is_ascii_alphanumeric(c) && c != '.' {
            return false;
        }
        if c == '.' && i > 0 && v[i - 1] == '.' {
            return false;
        }
        i = i + 1;
    }
    true
}

/// Every text of 1 to 20 ASCII letters and digits is a ticker.
pub proof fn alphanumeric_texts_are_tickers(t: Seq<char>)
    requires
        1 <= t.len() <= 20,
        forall|i: int|
            0 <= i < t.len() ==> ('0' <= #[trigger] t[i] <= '9') || ('A' <= t[i] <= 'Z') || ('a' <= t[i]
                <= 'z'),
    ensures
        is_ticker(t),
{
    assert(is_ascii_alnum_char(t[0]));
    assert(is_ascii_alnum_char(t[t.len() - 1]));
}

/// Two tickers joined by a `.` make a ticker, as long as the whole is at
/// most 20 characters long.
pub proof fn dotted_tickers_are_tickers(a: Seq<char>, b: Seq<char>)
    requires
        is_ticker(a),
        is_ticker(b),
        a.len() + 1 + b.len() <= 20,
    ensures
        is_ticker(a + seq!['.'] + b),
{
    let t = a + seq!['.'] + b;
    let n = a.len() as int;
    assert forall|i: int| 0 <= i < t.len() implies is_ascii_alnum_char(#[trigger] t[i]) || t[i] == '.' by {
        if i < n {
            assert(t[i] == a[i]);
        } else if i > n {
            assert(t[i] == b[i - n - 1]);
        }
    }
    assert forall|i: int| 0 < i < t.len() && #[trigger] t[i] == '.' implies t[i - 1] != '.' by {
        if i < n {
            assert(t[i] == a[i]);
            assert(t[i - 1] == a[i - 1]);
        } else if i == n {
            assert(t[i - 1] == a[n - 1]);
        } else if i == n + 1 {
            assert(t[i] == b[0]);
        } else {
            assert(t[i] == b[i - n - 1]);
            assert(t[i - 1] == b[i - n - 2]);
        }
    }
    assert(t[0] == a[0]);
    assert(t.last() == b.last());
}

/// A ticker is 1 to 20 characters, each an ASCII letter, digit or `.`,
/// and it never starts or ends with a `.` nor holds two `.` in a row.
pub proof fn tickers_are_dotted_runs(t: Seq<char>)
    requires
        is_ticker(t),
    ensures
        1 <= t.len() <= 20,
        forall|i: int|
            0 <= i < t.len() ==> ('0' <= #[trigger] t[i] <= '9') || ('A' <= t[i] <= 'Z') || ('a' <= t[i]
                <= 'z') || t[i] == '.',
        t[0] != '.',
        t[t.len() - 1] != '.',
        forall|i: int| 0 < i < t.len() && #[trigger] t[i] == '.' ==> t[i - 1] != '.',
{
    assert forall|i: int| 0 <= i < t.len() implies ('0' <= #[trigger] t[i] <= '9') || ('A' <= t[i] <= 'Z')
        || ('a' <= t[i] <= 'z') || t[i] == '.' by {
        assert(is_ascii_alnum_char(t[i]) || t[i] == '.');
    }
}

/// A movement of the ledger.
#[derive(Debug, Clone, Copy, PartialEq, Eq, Structural)]
pub enum OperationType {
    Buy,
    Sell,
}

impl OperationType {
    /// The text stored in the ledger for this kind of operation.
    pub open spec fn db_text(self) -> Seq<char> {
        match self {
            OperationType::Buy => "buy"@,
            OperationType::Sell => "sell"@,
        }
    }

    /// `buy` or `sell`, as stored in the ledger.
    pub fn as_db_str(self) -> (s: &'static str)
        ensures
            s@ == self.db_text(),
    {
        match self {
            OperationType::Buy => "buy",
            OperationType::Sell => "sell",
        }
    }
}

/// The quantity a position holds after `op` of `quantity` shares.
pub open spec fn apply_operation(old_quantity: int, op: OperationType, quantity: int) -> int {
    match op {
        OperationType::Buy => old_quantity + quantity,
        OperationType::Sell => old_quantity - quantity,
    }
}

/// The ledger operation that changing a position from `old_quantity` to
/// `new_quantity` shares records: a buy of the increase, a sell of the
/// decrease, or nothing when the quantity stays.
pub fn quantity_change_operation(new_quantity: i32, old_quantity: i32) -> (r: Option<(OperationType, i32)>)
    requires
        i32::MIN < new_quantity - old_quantity <= i32::MAX,
    ensures
        new_quantity == old_quantity <==> r is None,
        r matches Some((op, q)) ==> q > 0 && apply_operation(old_quantity as int, op, q as int) == new_quantity,
        r matches Some((op, _)) ==> (op == OperationType::Buy <==> new_quantity > old_quantity),
{
    let delta = new_quantity - old_quantity;
    if delta > 0 {
        Some((OperationType::Buy, delta))
    } else if delta < 0 {
        Some((OperationType::Sell, -delta))
    } else {
        None
    }
}

/// The text a model answers with when it has not been trained for a ticker.
pub open spec fn untrained_marker() -> Seq<char> {
    "todavia no hay un modelo entrenado"@
}

/// Whether the reason a trend came back unavailable says that the model has
/// not been trained for the ticker yet (a timeout or an outage does not).
pub fn needs_preparation(reason: Option<&str>) -> (b: bool)
    ensures
        b == (reason matches Some(r) && contains_seq(r@, untrained_marker())),
{
    match reason {
        Some(r) => contains_str(r, "todavia no hay un modelo entrenado"),
        None => false,
    }
}

/// Most model preparations that may run at once.
pub const MAX_CONCURRENT_PREPARATIONS: usize = 2;

/// The tickers whose models are being prepared in the background: never
/// more than `MAX_CONCURRENT_PREPARATIONS`, each at most once.
pub struct PreparationSlots {
    tickers: Vec<String>,
}

impl View for PreparationSlots {
    type V = Seq<Seq<char>>;

    closed spec fn view(&self) -> Seq<Seq<char>> {
        self.tickers@.map_values(|t: String| t@)
    }
}

impl PreparationSlots {
    /// At most `MAX_CONCURRENT_PREPARATIONS` tickers, no ticker twice.
    #[verifier::type_invariant]
    spec fn wf(self) -> bool {
        &&& self@.len() <= MAX_CONCURRENT_PREPARATIONS
        &&& self@.no_duplicates()
    }

    /// No ticker in preparation.
    pub fn new() -> (s: Self)
        ensures
            s@ == Seq::<Seq<char>>::empty(),
    {
        let s = PreparationSlots { tickers: Vec::new() };
        assert(s@ =~= Seq::<Seq<char>>::empty());
        s
    }

    fn position(&self, ticker: &str) -> (r: Option<usize>)
        ensures
            r is None <==> !self@.contains(ticker@),
            r matches Some(i) ==> i < self@.len() && self@[i as int] == ticker@,
    {
        let mut i: usize = 0;
        while i < self.tickers.len()
            invariant
                i <= self.tickers@.len(),
                self@.len() == self.tickers@.len(),
                forall|k: int| 0 <= k < i ==> self@[k] != ticker@,
            decreases self.tickers@.len() - i,
        {
            if str_eq(self.tickers[i].as_str(), ticker) {
                assert(self@[i as int] == ticker@);
                return Some(i);
            }
            i = i + 1;
        }
        None
    }

    /// Claims a slot for `ticker`. Refused (`false`, nothing changes) when the
    /// ticker already holds one or every slot is taken.
    pub fn try_reserve(&mut self, ticker: &str) -> (ok: bool)
        ensures
            final(self)@.len() <= MAX_CONCURRENT_PREPARATIONS,
            final(self)@.no_duplicates(),
            ok == (!old(self)@.contains(ticker@) && old(self)@.len() < MAX_CONCURRENT_PREPARATIONS),
            ok ==> final(self)@ == old(self)@.push(ticker@),
            !ok ==> final(self)@ == old(self)@,
    {
        proof {
            use_type_invariant(&*self);
        }
        if self.position(ticker).is_some() || self.tickers.len() >= MAX_CONCURRENT_PREPARATIONS {
            return false;
        }
        let ghost before = self@;
        let mut tickers: Vec<String> = Vec::new();
        std::mem::swap(&mut tickers, &mut self.tickers);
        assert(tickers@.map_values(|t: String| t@) == before);
        tickers.push(crate::text::owned(ticker));
        assert(tickers@.map_values(|t: String| t@) =~= before.push(ticker@));
        self.tickers = tickers;
        assert(self@ =~= before.push(ticker@));
        true
    }

    /// Frees the slot of `ticker`, if it holds one.
    pub fn release(&mut self, ticker: &str)
        ensures
            final(self)@.len() <= MAX_CONCURRENT_PREPARATIONS,
            final(self)@.no_duplicates(),
            !final(self)@.contains(ticker@),
            forall|t: Seq<char>| t != ticker@ ==> (final(self)@.contains(t) <==> old(self)@.contains(t)),
            final(self)@.len() <= old(self)@.len(),
    {
        proof {
            use_type_invariant(&*self);
        }
        match self.position(ticker) {
            None => {},
            Some(i) => {
                let ghost before = self@;
                let mut tickers: Vec<String> = Vec::new();
                std::mem::swap(&mut tickers, &mut self.tickers);
                assert(tickers@.map_values(|t: String| t@) == before);
                tickers.remove(i);
                let ghost after = tickers@.map_values(|t: String| t@);
                assert(after =~= before.remove(i as int));
                proof {
                    assert forall|a: int, b: int| 0 <= a < b < after.len() implies after[a] != after[b] by {
                        let a0 = if a < i { a } else { a + 1 };
                        let b0 = if b < i { b } else { b + 1 };
                        assert(after[a] == before[a0]);
                        assert(after[b] == before[b0]);
                    }
                    assert forall|t: Seq<char>| t != ticker@ implies (after.contains(t) <==> before.contains(t)) by {
                        if before.contains(t) {
                            let k = choose|k: int| 0 <= k < before.len() && before[k] == t;
                            assert(k != i);
                            let k2 = if k < i { k } else { k - 1 };
                            assert(after[k2] == t);
                        }
                    }
                    assert forall|k: int| 0 <= k < after.len() implies after[k] != ticker@ by {
                        let k0 = if k < i { k } else { k + 1 };
                        assert(after[k] == before[k0]);
                    }
                }
                self.tickers = tickers;
                assert(self@ == after);
            },
        }
    }
}

/// Reserving a slot and releasing it leaves the set of tickers in
/// preparation as it was.
pub proof fn reserve_then_release_restores(before: Seq<Seq<char>>, after_reserve: Seq<Seq<char>>, after_release: Seq<Seq<char>>, ticker: Seq<char>)
    requires
        !before.contains(ticker),
        after_reserve == before.push(ticker),
        !after_release.contains(ticker),
        forall|t: Seq<char>| t != ticker ==> (after_release.contains(t) <==> after_reserve.contains(t)),
    ensures
        after_release.to_set() == before.to_set(),
{
    assert forall|t: Seq<char>| after_release.to_set().contains(t) <==> before.to_set().contains(t) by {
        if t != ticker {
            if before.contains(t) {
                let k = choose|k: int| 0 <= k < before.len() && before[k] == t;
                assert(after_reserve[k] == t);
            }
            if after_reserve.contains(t) {
                let k = choose|k: int| 0 <= k < after_reserve.len() && after_reserve[k] == t;
                assert(k < before.len());
                assert(before[k] == t);
            }
        }
    }
    assert(after_release.to_set() =~= before.to_set());
}

/// A share of the catalog.
pub struct ShareTickerItem {
    pub id: i32,
    pub ticker: String,
}

/// The whole catalog of shares.
pub struct ListAllSharesResponse {
    pub shares: Vec<ShareTickerItem>,
}

/// Why a request about a position was refused.
#[derive(Debug, Clone, Copy, PartialEq, Eq, Structural)]
pub enum ShareRequestError {
    /// The ticker is not 1 to 20 letters, digits and dots.
    InvalidTicker,
    /// The quantity is zero or negative.
    InvalidQuantity,
    /// An entry price was given and is zero or negative.
    InvalidEntryPrice,
    /// The models have too little history for the ticker.
    NotReady,
    /// The list of tickers with models could not be read.
    ReadinessUnknown,
    /// The ticker is not in the catalog.
    TickerNotFound,
    /// The user already holds the ticker.
    AlreadyHeld,
    /// The user holds no such position.
    ShareNotFound,
}

impl ShareRequestError {
    /// The HTTP status of the answer.
    pub fn status(self) -> (code: u16)
        ensures
            code == (match self {
                ShareRequestError::InvalidTicker => 400u16,
                ShareRequestError::InvalidQuantity => 400u16,
                ShareRequestError::InvalidEntryPrice => 400u16,
                ShareRequestError::NotReady => 422u16,
                ShareRequestError::ReadinessUnknown => 503u16,
                ShareRequestError::TickerNotFound => 404u16,
                ShareRequestError::AlreadyHeld => 409u16,
                ShareRequestError::ShareNotFound => 404u16,
            }),
    {
        match self {
            ShareRequestError::InvalidTicker => 400,
            ShareRequestError::InvalidQuantity => 400,
            ShareRequestError::InvalidEntryPrice => 400,
            ShareRequestError::NotReady => 422,
            ShareRequestError::ReadinessUnknown => 503,
            ShareRequestError::TickerNotFound => 404,
            ShareRequestError::AlreadyHeld => 409,
            ShareRequestError::ShareNotFound => 404,
        }
    }

    /// The message of the answer.
    pub fn message(self) -> (m: &'static str)
        ensures
            m@ == (match self {
                ShareRequestError::InvalidTicker =>
                    "Invalid ticker. Must be 1-20 alphanumeric characters, optionally with '.' separators."@,
                ShareRequestError::InvalidQuantity => "Quantity must be a positive integer."@,
                ShareRequestError::InvalidEntryPrice => "Entry price must be a positive number."@,
                ShareRequestError::NotReady =>
                    "Este ticker no tiene suficiente histórico para generar predicciones."@,
                ShareRequestError::ReadinessUnknown => "No se pudo validar el ticker."@,
                ShareRequestError::TickerNotFound => "Ticker not found."@,
                ShareRequestError::AlreadyHeld =>
                    "Share already exists for that ticker. Use PUT to update the quantity."@,
                ShareRequestError::ShareNotFound => "Share not found"@,
            }),
    {
        match self {
            ShareRequestError::InvalidTicker =>
                "Invalid ticker. Must be 1-20 alphanumeric characters, optionally with '.' separators.",
            ShareRequestError::InvalidQuantity => "Quantity must be a positive integer.",
            ShareRequestError::InvalidEntryPrice => "Entry price must be a positive number.",
            ShareRequestError::NotReady =>
                "Este ticker no tiene suficiente histórico para generar predicciones.",
            ShareRequestError::ReadinessUnknown => "No se pudo validar el ticker.",
            ShareRequestError::TickerNotFound => "Ticker not found.",
            ShareRequestError::AlreadyHeld =>
                "Share already exists for that ticker. Use PUT to update the quantity.",
            ShareRequestError::ShareNotFound => "Share not found",
        }
    }
}

/// A new position needs a well-formed ticker (after trimming and
/// uppercasing) and a positive quantity; gives the normalized ticker. The
/// ticker is checked first.
pub fn validate_new_position(ticker: &str, quantity: i32) -> (r: Result<String, ShareRequestError>)
    ensures
        !is_ticker(normalized_ticker(ticker@)) ==> r == Err::<String, ShareRequestError>(
            ShareRequestError::InvalidTicker,
        ),
        is_ticker(normalized_ticker(ticker@)) && quantity <= 0 ==> r == Err::<
            String,
            ShareRequestError,
        >(ShareRequestError::InvalidQuantity),
        is_ticker(normalized_ticker(ticker@)) && quantity > 0 ==> (r matches Ok(t) && t@
            == normalized_ticker(ticker@)),
{
    let t = normalize_ticker(ticker);
    if !is_valid_ticker(t.as_str()) {
        return Err(ShareRequestError::InvalidTicker);
    }
    if quantity <= 0 {
        return Err(ShareRequestError::InvalidQuantity);
    }
    Ok(t)
}

/// A position's new quantity must be positive.
pub fn check_quantity(quantity: i32) -> (r: Result<(), ShareRequestError>)
    ensures
        r is Ok <==> quantity > 0,
        r is Err ==> r == Err::<(), ShareRequestError>(ShareRequestError::InvalidQuantity),
{
    if quantity <= 0 {
        Err(ShareRequestError::InvalidQuantity)
    } else {
        Ok(())
    }
}

/// Whether `ticker` may be held: the models are ready for it. `ready` is the
/// list of tickers with models, `None` when it could not be read.
pub fn check_ready(ready: Option<&Vec<String>>, ticker: &str) -> (r: Result<(), ShareRequestError>)
    ensures
        ready is None ==> r == Err::<(), ShareRequestError>(ShareRequestError::ReadinessUnknown),
        ready matches Some(list) ==> (r is Ok <==> views(list@).contains(ticker@)),
        ready matches Some(list) ==> (r is Err ==> r == Err::<(), ShareRequestError>(
            ShareRequestError::NotReady,
        )),
{
    let list = match ready {
        Some(l) => l,
        None => return Err(ShareRequestError::ReadinessUnknown),
    };
    let ghost names = views(list@);
    let mut i: usize = 0;
    while i < list.len()
        invariant
            i <= list@.len(),
            ready == Some(list),
            names == views(list@),
            forall|k: int| 0 <= k < i ==> names[k] != ticker@,
        decreases list@.len() - i,
    {
        if str_eq(list[i].as_str(), ticker) {
            assert(names[i as int] == ticker@);
            return Ok(());
        }
        i = i + 1;
    }
    Err(ShareRequestError::NotReady)
}

/// Whether an operation has to be priced at the market: a sell always is, a
/// buy only when no price was given.
pub fn needs_market_price(op: OperationType, price_given: bool) -> (b: bool)
    ensures
        b == (op == OperationType::Sell || !price_given),
{
    match op {
        OperationType::Sell => true,
        OperationType::Buy => !price_given,
    }
}

/// The message given when no current price could be had for `ticker`.
pub open spec fn price_unavailable_text(ticker: Seq<char>) -> Seq<char> {
    "Could not retrieve current price data for "@ + ticker + ". Please try again later."@
}

/// The message given when no current price could be had for `ticker`.
pub fn price_unavailable_message(ticker: &str) -> (s: String)
    ensures
        s@ == price_unavailable_text(ticker@),
{
    let mut s = owned("Could not retrieve current price data for ");
    push_str(&mut s, ticker);
    push_str(&mut s, ". Please try again later.");
    s
}

/// `base` without its trailing slashes (`str::trim_end_matches('/')`).
pub open spec fn without_trailing_slashes(base: Seq<char>) -> Seq<char>
    decreases base.len(),
{
    if base.len() > 0 && base.last() == '/' {
        without_trailing_slashes(base.drop_last())
    } else {
        base
    }
}

/// The address of `path` on the service at `base`: `base` without trailing
/// slashes, then `/`, then `path`.
pub open spec fn service_url_of(base: Seq<char>, path: Seq<char>) -> Seq<char> {
    without_trailing_slashes(base) + "/"@ + path
}

/// The address of `path` on the service at `base`.
pub fn service_url(base: &str, path: &str) -> (s: String)
    ensures
        s@ == service_url_of(base@, path@),
{
    let v = chars_of(base);
    let mut end: usize = v.len();
    assert(v@.take(end as int) =~= base@);
    while end > 0 && v[end - 1] == '/'
        invariant
            end <= v@.len(),
            v@ == base@,
            without_trailing_slashes(v@.take(end as int)) == without_trailing_slashes(base@),
        decreases end,
    {
        assert(v@.take(end as int).drop_last() =~= v@.take(end - 1));
        end = end - 1;
    }
    assert(v@.take(end as int) == without_trailing_slashes(v@.take(end as int)));
    let mut out: Vec<char> = Vec::new();
    let mut i: usize = 0;
    while i < end
        invariant
            i <= end <= v@.len(),
            out@ == v@.take(i as int),
        decreases end - i,
    {
        out.push(v[i]);
        i = i + 1;
        assert(out@ =~= v@.take(i as int));
    }
    let mut s = crate::text::string_from_chars(out.as_slice());
    push_str(&mut s, "/");
    push_str(&mut s, path);
    s
}

/// How the model service answered a trend request.
pub enum ModelReply {
    /// A prediction.
    Prediction,
    /// An answer naming an error, with its text when it is one.
    ModelError(Option<String>),
    /// A successful status with a body that is not JSON.
    InvalidBody,
    /// An unsuccessful status.
    Failed,
    /// No answer at all (unreachable, timed out).
    Unreachable,
}

/// Why a trend is unavailable, for each answer of the model service; `None`
/// when a prediction came back.
pub open spec fn unavailable_reason_of(reply: ModelReply) -> Option<Seq<char>> {
    match reply {
        ModelReply::Prediction => None,
        ModelReply::ModelError(Some(e)) => Some(e@),
        ModelReply::ModelError(None) => Some("Modal devolvio una respuesta invalida"@),
        ModelReply::InvalidBody => Some("Respuesta invalida de Modal"@),
        ModelReply::Failed => Some("Modal no pudo predecir para este ticker"@),
        ModelReply::Unreachable => Some("No se pudo contactar a Modal"@),
    }
}

/// Why a trend is unavailable given the model service's answer.
pub fn unavailable_reason(reply: &ModelReply) -> (r: Option<String>)
    ensures
        crate::text::opt_view(r) == unavailable_reason_of(*reply),
{
    match reply {
        ModelReply::Prediction => None,
        ModelReply::ModelError(Some(e)) => Some(e.clone()),
        ModelReply::ModelError(None) => Some(owned("Modal devolvio una respuesta invalida")),
        ModelReply::InvalidBody => Some(owned("Respuesta invalida de Modal")),
        ModelReply::Failed => Some(owned("Modal no pudo predecir para este ticker")),
        ModelReply::Unreachable => Some(owned("No se pudo contactar a Modal")),
    }
}

/// The horizon, in days, that a key of a volatility forecast names: the
/// keys read `h.<days>`.
pub open spec fn forecast_horizon_of(key: Seq<char>) -> Option<int> {
    if crate::text::starts_with(key, "h."@) {
        crate::decimal::parsed_signed(key.skip(2))
    } else {
        None
    }
}

/// The horizon a key of a volatility forecast names, when it is one.
pub fn forecast_horizon(key: &str) -> (r: Option<i64>)
    ensures
        match r {
            Some(h) => forecast_horizon_of(key@) == Some(h as int),
            None => forecast_horizon_of(key@) is None,
        },
{
    proof {
        reveal_strlit("h.");
    }
    match crate::text::strip_prefix(key, "h.") {
        Some(rest) => crate::decimal::parse_i64(rest.as_str()),
        None => None,
    }
}

/// The trend signal of an SVM prediction: `alza` for `Buy`, `baja` for
/// `Sell`; any other prediction makes the model unavailable.
pub fn svm_signal(prediction: Option<&str>) -> (r: Option<&'static str>)
    ensures
        match prediction {
            Some(p) => if p@ == "Buy"@ {
                r matches Some(s) && s@ == "alza"@
            } else if p@ == "Sell"@ {
                r matches Some(s) && s@ == "baja"@
            } else {
                r is None
            },
            None => r is None,
        },
{
    match prediction {
        Some(p) => {
            if str_eq(p, "Buy") {
                Some("alza")
            } else if str_eq(p, "Sell") {
                Some("baja")
            } else {
                None
            }
        },
        None => None,
    }
}

/// Whether a request for a price history is tried again: when no answer
/// came (`None`) or the service answered with a server error (5xx).
pub fn should_retry_history(status: Option<u16>) -> (b: bool)
    ensures
        b == match status {
            Some(code) => 500 <= code <= 599,
            None => true,
        },
{
    match status {
        Some(code) => 500 <= code && code <= 599,
        None => true,
    }
}

/// Options of a portfolio recommendation: the model to use and the anchor
/// portfolio.
pub struct PortfolioQuery {
    pub model: Option<String>,
    pub cartera_ancla: Option<String>,
}

/// The plain value of a list of query parameters.
pub open spec fn param_views(params: Seq<(&'static str, String)>) -> Seq<(Seq<char>, Seq<char>)> {
    params.map_values(|p: (&'static str, String)| (p.0@, p.1@))
}

/// The query parameters the options give, in this order: `model`, then
/// `cartera_ancla`, each only when it is set.
pub open spec fn portfolio_params_of(model: Option<Seq<char>>, anchor: Option<Seq<char>>) -> Seq<
    (Seq<char>, Seq<char>),
> {
    let first = match model {
        Some(m) => seq![("model"@, m)],
        None => Seq::empty(),
    };
    let second = match anchor {
        Some(a) => seq![("cartera_ancla"@, a)],
        None => Seq::empty(),
    };
    first + second
}

impl PortfolioQuery {
    /// The query parameters to forward to the recommendation service.
    pub fn query_params(&self) -> (r: Vec<(&'static str, String)>)
        ensures
            param_views(r@) == portfolio_params_of(
                crate::text::opt_view(self.model),
                crate::text::opt_view(self.cartera_ancla),
            ),
    {
        let mut r: Vec<(&'static str, String)> = Vec::new();
        match &self.model {
            Some(m) => r.push(("model", m.clone())),
            None => {},
        }
        match &self.cartera_ancla {
            Some(a) => r.push(("cartera_ancla", a.clone())),
            None => {},
        }
        assert(param_views(r@) =~= portfolio_params_of(
            crate::text::opt_view(self.model),
            crate::text::opt_view(self.cartera_ancla),
        ));
        r
    }
}

} // verus!
