//! The platform client's decisions: which monthly archives to fetch, how an
//! upstream record becomes a [`NewGame`], and what each per-archive fetch
//! outcome contributes to the batch stream. The HTTP calls themselves live
//! with the serving layer, which feeds their outcomes in as plain values.

use vstd::prelude::*;

use chrono::Datelike as _;

use crate::errors::PlatformError;
use crate::game::{Color, NewGame, NewGameV};
use crate::platform::PlatformName;
use crate::store::{new_games_view, str_eq};

verus! {

pub open spec fn is_digit(c: char) -> bool {
    '0' <= c && c <= '9'
}

pub open spec fn all_digits(s: Seq<char>) -> bool {
    forall|i: int| 0 <= i < s.len() ==> is_digit(#[trigger] s[i])
}

/// Numeric value of a digit string.
pub open spec fn digits_value(s: Seq<char>) -> int
    decreases s.len(),
{
    if s.len() == 0 {
        0
    } else {
        digits_value(s.drop_last()) * 10 + (s.last() as u32 - 48)
    }
}

/// What parsing an unsigned 64-bit decimal accepts: an optional plus sign,
/// then at least one digit, the value within range.
pub open spec fn parse_u64_of(s: Seq<char>) -> Option<u64> {
    let digits = if s.len() > 0 && s[0] == '+' {
        s.drop_first()
    } else {
        s
    };
    if digits.len() > 0 && all_digits(digits) && digits_value(digits) <= u64::MAX {
        Some(digits_value(digits) as u64)
    } else {
        None
    }
}

/// The parsed value, or 0 where the token is no number — how the archive
/// URL's trailing segments are read.
pub open spec fn parse_or_zero(s: Seq<char>) -> u64 {
    match parse_u64_of(s) {
        Some(v) => v,
        None => 0,
    }
}

proof fn lemma_digits_value_nonneg(s: Seq<char>)
    requires
        all_digits(s),
    ensures
        digits_value(s) >= 0,
    decreases s.len(),
{
    if s.len() > 0 {
        assert(forall|i: int| 0 <= i < s.len() - 1 ==> s.drop_last()[i] == #[trigger] s[i]);
        lemma_digits_value_nonneg(s.drop_last());
    }
}

/// Parses the digit part of a token (after any plus sign); `None` when a
/// non-digit occurs, the part is empty, or the value overflows.
fn parse_digits(s: &Vec<char>, start: usize) -> (r: Option<u64>)
    requires
        start <= s@.len(),
    ensures
        ({
            let digits = s@.skip(start as int);
            match r {
                Some(v) => digits.len() > 0 && all_digits(digits) && digits_value(digits) == v,
                None => !(digits.len() > 0 && all_digits(digits) && digits_value(digits)
                    <= u64::MAX),
            }
        }),
{
    let ghost digits = s@.skip(start as int);
    if start == s.len() {
        return None;
    }
    let mut acc: u64 = 0;
    let mut overflowed = false;
    let mut i: usize = start;
    proof {
        assert(digits.take(0) =~= Seq::<char>::empty());
    }
    #[verifier::loop_isolation(false)]
    while i < s.len()
        invariant
            start <= i <= s@.len(),
            digits == s@.skip(start as int),
            all_digits(digits.take(i - start)),
            !overflowed ==> acc == digits_value(digits.take(i - start)),
            overflowed ==> digits_value(digits.take(i - start)) > u64::MAX,
        decreases s@.len() - i,
    {
        let c = s[i];
        if !('0' <= c && c <= '9') {
            proof {
                assert(digits[i - start] == c);
                assert(!is_digit(digits[i - start]));
            }
            return None;
        }
        let d: u32 = (c as u32) - 48;
        let ghost prefix = digits.take(i - start);
        proof {
            assert(digits.take(i - start + 1).drop_last() =~= prefix);
            assert(digits.take(i - start + 1).last() == digits[i - start]);
            assert(digits[i - start] == s@[i as int]);
            lemma_digits_value_nonneg(prefix);
        }
        if overflowed {
            proof {
                assert(digits_value(digits.take(i - start + 1)) == digits_value(prefix) * 10 + (
                c as u32 - 48));
                assert(digits_value(prefix) * 10 >= digits_value(prefix)) by (nonlinear_arith)
                    requires
                        digits_value(prefix) > 0,
                ;
            }
        } else {
            let wide: u128 = (acc as u128) * 10 + (d as u128);
            if wide > u64::MAX as u128 {
                overflowed = true;
            } else {
                acc = wide as u64;
            }
        }
        i = i + 1;
    }
    proof {
        assert(digits.take(i - start) =~= digits);
    }
    if overflowed {
        None
    } else {
        Some(acc)
    }
}

/// Parses a token as the standard unsigned decimal parser does, yielding 0
/// on any failure.
pub fn parse_token_or_zero(s: &Vec<char>) -> (r: u64)
    ensures
        r == parse_or_zero(s@),
{
    if s.len() > 0 && s[0] == '+' {
        proof {
            assert(s@.skip(1) =~= s@.drop_first());
        }
        match parse_digits(s, 1) {
            Some(v) => v,
            None => 0,
        }
    } else {
        proof {
            assert(s@.skip(0) =~= s@);
        }
        match parse_digits(s, 0) {
            Some(v) => v,
            None => 0,
        }
    }
}

/// Index of the last slash of the string, or -1.
pub open spec fn last_slash(s: Seq<char>) -> int
    decreases s.len(),
{
    if s.len() == 0 {
        -1
    } else if s.last() == '/' {
        s.len() - 1
    } else {
        last_slash(s.drop_last())
    }
}

proof fn lemma_last_slash_bounds(s: Seq<char>)
    ensures
        -1 <= last_slash(s) < s.len(),
    decreases s.len(),
{
    if s.len() > 0 && s.last() != '/' {
        lemma_last_slash_bounds(s.drop_last());
    }
}

/// The characters after the last slash: the URL's month segment.
pub open spec fn month_token(s: Seq<char>) -> Seq<char> {
    s.subrange(last_slash(s) + 1, s.len() as int)
}

/// The characters between the last two slashes: the URL's year segment
/// (empty when there is no second slash).
pub open spec fn year_token(s: Seq<char>) -> Seq<char> {
    if last_slash(s) < 0 {
        Seq::empty()
    } else {
        month_token(s.take(last_slash(s)))
    }
}

fn last_slash_exec(s: &Vec<char>, end: usize) -> (r: Option<usize>)
    requires
        end <= s@.len(),
    ensures
        match r {
            Some(j) => j < end && last_slash(s@.take(end as int)) == j,
            None => last_slash(s@.take(end as int)) == -1,
        },
{
    let mut i: usize = end;
    #[verifier::loop_isolation(false)]
    while i > 0
        invariant
            i <= end <= s@.len(),
            last_slash(s@.take(end as int)) == last_slash(s@.take(i as int)),
        decreases i,
    {
        proof {
            assert(s@.take(i as int).drop_last() =~= s@.take(i as int - 1));
            assert(s@.take(i as int).last() == s@[i as int - 1]);
        }
        if s[i - 1] == '/' {
            return Some(i - 1);
        }
        i = i - 1;
    }
    proof {
        assert(s@.take(0) =~= Seq::<char>::empty());
    }
    None
}

fn copy_range(s: &Vec<char>, from: usize, to: usize) -> (r: Vec<char>)
    requires
        from <= to <= s@.len(),
    ensures
        r@ == s@.subrange(from as int, to as int),
{
    let mut out: Vec<char> = Vec::new();
    let mut i: usize = from;
    proof {
        assert(out@ =~= s@.subrange(from as int, from as int));
    }
    #[verifier::loop_isolation(false)]
    while i < to
        invariant
            from <= i <= to,
            out@ == s@.subrange(from as int, i as int),
        decreases to - i,
    {
        out.push(s[i]);
        proof {
            assert(out@ =~= s@.subrange(from as int, i as int + 1));
        }
        i = i + 1;
    }
    out
}

/// The year and month an archive URL's trailing `/YYYY/MM` names, each 0
/// when absent or non-numeric.
pub open spec fn archive_year_month(url: Seq<char>) -> (u64, u64) {
    (parse_or_zero(year_token(url)), parse_or_zero(month_token(url)))
}

fn archive_year_month_exec(url: &str) -> (r: (u64, u64))
    ensures
        r == archive_year_month(url@),
{
    let chars = crate::expand::str_chars(url);
    proof {
        lemma_last_slash_bounds(chars@);
        assert(chars@.take(chars@.len() as int) =~= chars@);
    }
    let n = chars.len();
    let (m_from, had_slash) = match last_slash_exec(&chars, n) {
        Some(j) => (j + 1, true),
        None => (0usize, false),
    };
    proof {
        if !had_slash {
            assert(month_token(chars@) =~= chars@.subrange(0, chars@.len() as int));
        }
    }
    let m_tok = copy_range(&chars, m_from, n);
    let m = parse_token_or_zero(&m_tok);
    if had_slash {
        let j = m_from - 1;
        proof {
            lemma_last_slash_bounds(chars@.take(j as int));
        }
        let y_from = match last_slash_exec(&chars, j) {
            Some(j2) => j2 + 1,
            None => 0usize,
        };
        proof {
            if last_slash(chars@.take(j as int)) == -1 {
                assert(year_token(chars@) =~= chars@.take(j as int).subrange(0, j as int));
                assert(chars@.take(j as int).subrange(0, j as int) =~= chars@.subrange(
                    0,
                    j as int,
                ));
            } else {
                assert(year_token(chars@) =~= chars@.subrange(
                    last_slash(chars@.take(j as int)) + 1,
                    j as int,
                ));
                assert(chars@.take(j as int).subrange(
                    last_slash(chars@.take(j as int)) + 1,
                    j as int,
                ) =~= chars@.subrange(last_slash(chars@.take(j as int)) + 1, j as int));
            }
        }
        let y_tok = copy_range(&chars, y_from, j);
        let y = parse_token_or_zero(&y_tok);
        (y, m)
    } else {
        proof {
            assert(year_token(chars@) =~= Seq::<char>::empty());
            assert(parse_u64_of(Seq::<char>::empty()) is None);
        }
        (0, m)
    }
}

/// The civil year and month of an instant given in milliseconds since the
/// Unix epoch, or `None` when the instant is out of the calendar's range.
/// The result depends on the instant alone.
pub uninterp spec fn civil_year_month_of(millis: i64) -> Option<(u64, u64)>;

/// Relies on chrono's `DateTime::from_timestamp_millis`, `Datelike::year`
/// and `Datelike::month`: the civil year and month of an instant depend on
/// the instant alone.
#[verifier::external_body]
fn civil_year_month(millis: i64) -> (r: Option<(u64, u64)>)
    ensures
        r == civil_year_month_of(millis),
{
    match chrono::DateTime::from_timestamp_millis(millis) {
        Some(dt) => Some((dt.year() as u64, dt.month() as u64)),
        None => None,
    }
}

/// Whether an archive from `(year, month)` is fetched when games since
/// `(y0, m0)` are wanted: archives strictly before the boundary month are
/// dropped; the boundary month itself is kept, and a post-fetch filter on
/// the finish instant compensates.
pub open spec fn archive_kept(url: Seq<char>, y0: u64, m0: u64) -> bool {
    let ym = archive_year_month(url);
    ym.0 > y0 || (ym.0 == y0 && ym.1 >= m0)
}

/// Drops the monthly archives strictly older than the month of
/// `from_timestamp` (in seconds). When that instant has no calendar month,
/// every archive is kept.
pub fn filter_archives_by_timestamp(archives: Vec<String>, from_timestamp: u64) -> (r: Vec<String>)
    requires
        from_timestamp <= i64::MAX / 1000,
    ensures
        ({
            let avs = archives@.map_values(|s: String| s@);
            match civil_year_month_of((from_timestamp * 1000) as i64) {
                None => r@.map_values(|s: String| s@) == avs,
                Some(ym) => r@.map_values(|s: String| s@) == avs.filter(
                    |u: Seq<char>| archive_kept(u, ym.0, ym.1),
                ),
            }
        }),
{
    let ghost avs = archives@.map_values(|s: String| s@);
    let millis = (from_timestamp * 1000) as i64;
    let (y0, m0) = match civil_year_month(millis) {
        Some(ym) => ym,
        None => {
            return archives;
        },
    };
    let ghost pred = |u: Seq<char>| archive_kept(u, y0, m0);
    let mut out: Vec<String> = Vec::new();
    let mut pending = archives;
    let mut i: usize = 0;
    let total = pending.len();
    proof {
        reveal(Seq::filter);
        assert(avs.take(0) =~= Seq::<Seq<char>>::empty());
        assert(out@.map_values(|s: String| s@) =~= avs.take(0).filter(pred));
    }
    #[verifier::loop_isolation(false)]
    while pending.len() > 0
        invariant
            i <= total == avs.len(),
            pending@.len() == total - i,
            forall|t: int| 0 <= t < pending@.len() ==> (#[trigger] pending@[t])@ == avs[i + t],
            out@.map_values(|s: String| s@) == avs.take(i as int).filter(pred),
        decreases pending@.len(),
    {
        let a = pending.remove(0);
        let ghost av = a@;
        proof {
            assert(av == avs[i as int]);
            assert(avs.take(i as int + 1).drop_last() =~= avs.take(i as int));
            assert(avs.take(i as int + 1).last() == avs[i as int]);
        }
        let (y, m) = archive_year_month_exec(a.as_str());
        let keep = y > y0 || (y == y0 && m >= m0);
        if keep {
            let ghost before = out@.map_values(|s: String| s@);
            out.push(a);
            proof {
                assert(out@.map_values(|s: String| s@) =~= before.push(av));
            }
        }
        i = i + 1;
    }
    proof {
        assert(avs.take(i as int) =~= avs);
    }
    out
}

/// The decision at the heart of the fetch: how many archives will be
/// streamed — the progress denominator — and which, in order.
pub fn plan_fetch(archives: Vec<String>, from_timestamp: Option<u64>) -> (r: (usize, Vec<String>))
    requires
        match from_timestamp {
            Some(ts) => ts <= i64::MAX / 1000,
            None => true,
        },
    ensures
        r.0 == r.1@.len(),
        ({
            let avs = archives@.map_values(|s: String| s@);
            match from_timestamp {
                None => r.1@.map_values(|s: String| s@) == avs,
                Some(ts) => match civil_year_month_of((ts * 1000) as i64) {
                    None => r.1@.map_values(|s: String| s@) == avs,
                    Some(ym) => r.1@.map_values(|s: String| s@) == avs.filter(
                        |u: Seq<char>| archive_kept(u, ym.0, ym.1),
                    ),
                },
            }
        }),
{
    let filtered = match from_timestamp {
        Some(ts) => filter_archives_by_timestamp(archives, ts),
        None => archives,
    };
    let n = filtered.len();
    proof {
        assert(filtered@.map_values(|s: String| s@).len() == filtered@.len());
    }
    (n, filtered)
}

/// The lowercase form of a string, named: the result depends on the
/// characters alone.
pub uninterp spec fn lower_of(s: Seq<char>) -> Seq<char>;

/// Relies on `str::to_lowercase`: the result depends on the characters
/// alone.
#[verifier::external_body]
fn lowercase(s: &str) -> (r: String)
    ensures
        r@ == lower_of(s@),
{
    s.to_lowercase()
}

/// The winner a pair of upstream result tags declares: the side whose tag
/// reads "win" regardless of case, if any; `None` otherwise (draw, abort,
/// unknown).
pub open spec fn winner_of(white_result: Seq<char>, black_result: Seq<char>) -> Option<Color> {
    if lower_of(white_result) == "win"@ {
        Some(Color::White)
    } else if lower_of(black_result) == "win"@ {
        Some(Color::Black)
    } else {
        None
    }
}

/// Extracts the winner from the two result tags.
pub fn compute_winner(white_result: &str, black_result: &str) -> (r: Option<Color>)
    ensures
        r == winner_of(white_result@, black_result@),
{
    if str_eq(lowercase(white_result).as_str(), "win") {
        Some(Color::White)
    } else if str_eq(lowercase(black_result).as_str(), "win") {
        Some(Color::Black)
    } else {
        None
    }
}

/// A 32-bit rating narrowed to the `smallint` column the way a
/// two's-complement cast narrows it.
pub open spec fn wrap_i16(x: u32) -> i16 {
    let low = x % 0x10000;
    if low < 0x8000 {
        low as i16
    } else {
        (low - 0x10000) as i16
    }
}

fn wrap_u32_to_i16(x: u32) -> (r: i16)
    ensures
        r == wrap_i16(x),
{
    let low = x % 0x10000;
    if low < 0x8000 {
        low as i16
    } else {
        ((low as i32) - 0x10000) as i16
    }
}

/// One player's slot in an upstream game record.
pub struct PlayerRecord {
    pub username: String,
    pub rating: u32,
    pub result: String,
}

/// One game as the platform's archive reports it; `end_time` is in seconds
/// since the Unix epoch.
pub struct GameRecord {
    pub pgn: Option<String>,
    pub end_time: u64,
    pub white: PlayerRecord,
    pub black: PlayerRecord,
}

/// The domain game an upstream record maps to.
pub open spec fn new_game_of_record(rec: GameRecord) -> NewGameV {
    NewGameV {
        white: rec.white.username@,
        white_elo: wrap_i16(rec.white.rating),
        black: rec.black.username@,
        black_elo: wrap_i16(rec.black.rating),
        winner: winner_of(rec.white.result@, rec.black.result@),
        platform_name: PlatformName::ChessCom,
        pgn: match rec.pgn {
            Some(p) => p@,
            None => Seq::empty(),
        },
        finished_at: rec.end_time,
    }
}

/// Turns one upstream record into a [`NewGame`].
pub fn new_game_from_record(rec: GameRecord) -> (r: NewGame)
    ensures
        r@ == new_game_of_record(rec),
{
    let winner = compute_winner(rec.white.result.as_str(), rec.black.result.as_str());
    let white_elo = wrap_u32_to_i16(rec.white.rating);
    let black_elo = wrap_u32_to_i16(rec.black.rating);
    let pgn = match rec.pgn {
        Some(p) => p,
        None => String::new(),
    };
    NewGame::new(
        rec.white.username,
        white_elo,
        rec.black.username,
        black_elo,
        winner,
        PlatformName::ChessCom,
        pgn,
        rec.end_time,
    )
}

/// What one attempt to fetch an archive came back as; the serving layer
/// builds this from the HTTP outcome.
pub enum ArchiveFetchOutcome {
    /// The request could not be sent or completed (after retries).
    TransportError(String),
    /// A response arrived with a failure status: the platform sporadically
    /// rejects valid URLs, so the archive reads as empty.
    HttpStatusError,
    /// The response body did not decode as an archive.
    BodyParseError(String),
    /// The decoded archive's games.
    Games(Vec<GameRecord>),
}

pub open spec fn records_view(recs: Seq<GameRecord>) -> Seq<NewGameV> {
    recs.map_values(|r: GameRecord| new_game_of_record(r))
}

/// What one archive outcome contributes to the batch stream: the item to
/// emit and whether the stream ends here. Transport and decode failures
/// terminate the stream with an error item; a failure status yields an
/// empty batch and the stream goes on.
pub fn handle_archive_outcome(outcome: ArchiveFetchOutcome) -> (r: (Result<
    Vec<NewGame>,
    PlatformError,
>, bool))
    ensures
        match outcome {
            ArchiveFetchOutcome::TransportError(msg) => r.0 == Err::<Vec<NewGame>, PlatformError>(
                PlatformError::ApiError(msg),
            ) && r.1,
            ArchiveFetchOutcome::HttpStatusError => (r.0 matches Ok(v) && v@.len() == 0) && !r.1,
            ArchiveFetchOutcome::BodyParseError(msg) => r.0 == Err::<Vec<NewGame>, PlatformError>(
                PlatformError::ParseError(msg),
            ) && r.1,
            ArchiveFetchOutcome::Games(recs) => (r.0 matches Ok(v) && new_games_view(v@)
                == records_view(recs@)) && !r.1,
        },
{
    match outcome {
        ArchiveFetchOutcome::TransportError(msg) => (Err(PlatformError::ApiError(msg)), true),
        ArchiveFetchOutcome::HttpStatusError => (Ok(Vec::new()), false),
        ArchiveFetchOutcome::BodyParseError(msg) => (Err(PlatformError::ParseError(msg)), true),
        ArchiveFetchOutcome::Games(recs) => {
            let ghost rv = records_view(recs@);
            let mut games: Vec<NewGame> = Vec::new();
            let mut pending = recs;
            let mut i: usize = 0;
            let total = pending.len();
            proof {
                assert(new_games_view(games@) =~= rv.take(0));
            }
            #[verifier::loop_isolation(false)]
            while pending.len() > 0
                invariant
                    i <= total == rv.len(),
                    pending@.len() == total - i,
                    forall|t: int|
                        0 <= t < pending@.len() ==> new_game_of_record(#[trigger] pending@[t])
                            == rv[i + t],
                    new_games_view(games@) == rv.take(i as int),
                decreases pending@.len(),
            {
                let rec = pending.remove(0);
                let g = new_game_from_record(rec);
                let ghost before = new_games_view(games@);
                games.push(g);
                proof {
                    assert(new_games_view(games@) =~= before.push(g@));
                    assert(new_games_view(games@) =~= rv.take(i as int + 1));
                }
                i = i + 1;
            }
            proof {
                assert(rv.take(i as int) =~= rv);
            }
            (Ok(games), false)
        },
    }
}

/// What the archives-index request came back as.
pub enum ArchivesIndexOutcome {
    /// The request could not be sent or completed (after retries).
    TransportError(String),
    /// A response arrived with a failure status.
    HttpStatusError(String),
    /// The response body did not decode as an archive list.
    BodyParseError(String),
    /// The decoded monthly archive URLs.
    Archives(Vec<String>),
}

/// Maps the archives-index outcome onto the platform error taxonomy:
/// transport trouble is retryable network failure, a failure status is an
/// upstream refusal, an undecodable body is a parse failure.
pub fn handle_archives_index(outcome: ArchivesIndexOutcome) -> (r: Result<
    Vec<String>,
    PlatformError,
>)
    ensures
        match outcome {
            ArchivesIndexOutcome::TransportError(msg) => r == Err::<Vec<String>, PlatformError>(
                PlatformError::NetworkError(msg),
            ),
            ArchivesIndexOutcome::HttpStatusError(msg) => r == Err::<Vec<String>, PlatformError>(
                PlatformError::ApiError(msg),
            ),
            ArchivesIndexOutcome::BodyParseError(msg) => r == Err::<Vec<String>, PlatformError>(
                PlatformError::ParseError(msg),
            ),
            ArchivesIndexOutcome::Archives(urls) => r == Ok::<Vec<String>, PlatformError>(urls),
        },
{
    match outcome {
        ArchivesIndexOutcome::TransportError(msg) => Err(PlatformError::NetworkError(msg)),
        ArchivesIndexOutcome::HttpStatusError(msg) => Err(PlatformError::ApiError(msg)),
        ArchivesIndexOutcome::BodyParseError(msg) => Err(PlatformError::ParseError(msg)),
        ArchivesIndexOutcome::Archives(urls) => Ok(urls),
    }
}

} // verus!
