//! Configuration of the markets services: database settings, and the check
//! of the configured market list.
use vstd::prelude::*;

verus! {

/// Database settings of the instruments service.
#[derive(Debug, Clone)]
pub struct Config {
    pub database_url: String,
    pub max_connections: u32,
}

/// Value of a string of decimal digits.
pub open spec fn digits_value(s: Seq<char>) -> int
    decreases s.len(),
{
    if s.len() == 0 {
        0
    } else {
        digits_value(s.drop_last()) * 10 + (s.last() as int - '0' as int)
    }
}

/// Every character is one of `0`-`9`.
pub open spec fn all_digits(s: Seq<char>) -> bool {
    forall|i: int| 0 <= i < s.len() ==> '0' <= #[trigger] s[i] <= '9'
}

/// A `u32` written in decimal: an optional `+` and at least one digit, of
/// value at most `u32::MAX`.
pub open spec fn decimal_u32(s: Seq<char>) -> Option<u32> {
    let d = if s.len() > 0 && s[0] == '+' {
        s.drop_first()
    } else {
        s
    };
    if d.len() > 0 && all_digits(d) && digits_value(d) <= u32::MAX {
        Some(digits_value(d) as u32)
    } else {
        None
    }
}

/// Calls `str::parse::<u32>`, which std documents as reading an optional `+`
/// followed by decimal digits only, and failing on an empty string, on any
/// other character, and on a value beyond `u32::MAX`.
#[verifier::external_body]
fn parse_u32(s: &str) -> (r: Option<u32>)
    ensures
        r == decimal_u32(s@),
{
    s.parse::<u32>().ok()
}

/// The connection limit a setting asks for; with none set, the text "5".
pub open spec fn max_connections_of(setting: Option<Seq<char>>) -> Option<u32> {
    match setting {
        Some(t) => decimal_u32(t),
        None => decimal_u32("5"@),
    }
}

impl Config {
    /// The settings read from the environment: the database URL, and the
    /// connection limit text (unset means "5"). `None` when the limit is not a
    /// number.
    pub fn from_settings(database_url: String, max_connections: Option<String>) -> (r: Option<
        Config,
    >)
        ensures
            r is Some == max_connections_of(
                match max_connections {
                    Some(t) => Some(t@),
                    None => None,
                },
            ) is Some,
            max_connections is None ==> (r matches Some(c) && c.max_connections == 5),
            r matches Some(c) ==> c.database_url == database_url && Some(c.max_connections)
                == max_connections_of(
                match max_connections {
                    Some(t) => Some(t@),
                    None => None,
                },
            ),
    {
        let limit = match &max_connections {
            Some(t) => parse_u32(t.as_str()),
            None => parse_u32("5"),
        };
        proof {
            reveal_strlit("5");
            assert(digits_value(seq!['5']) == 5) by {
                let s = seq!['5'];
                assert(s.drop_last() =~= Seq::<char>::empty());
                assert(digits_value(s.drop_last()) == 0);
            }
            assert("5"@ =~= seq!['5']);
        }
        match limit {
            Some(n) => Some(Config { database_url, max_connections: n }),
            None => None,
        }
    }
}

/// What the market-list check reads of one configured market.
pub struct MarketListing {
    pub market_index: i32,
    pub base: String,
    pub quote: String,
}

/// Why a configured market is refused.
#[derive(Debug, Clone, Copy, PartialEq, Eq, Structural)]
pub enum MarketConfigIssue {
    /// The base asset name is empty or all whitespace.
    EmptyBase,
    /// The quote asset name is empty or all whitespace.
    EmptyQuote,
    /// Base and quote name the same asset.
    SameAssets,
    /// An earlier market has the same base and quote.
    Duplicate,
    /// The market's index is not its position in the list.
    IndexMismatch,
}

/// A character with the Unicode `White_Space` property, the whitespace
/// `str::trim` removes: U+0009 to U+000D, U+0020, U+0085, U+00A0, U+1680,
/// U+2000 to U+200A, U+2028, U+2029, U+202F, U+205F and U+3000.
pub open spec fn white_space(c: char) -> bool {
    let n = c as u32;
    ||| 0x9 <= n <= 0xd
    ||| n == 0x20
    ||| n == 0x85
    ||| n == 0xa0
    ||| n == 0x1680
    ||| 0x2000 <= n <= 0x200a
    ||| n == 0x2028
    ||| n == 0x2029
    ||| n == 0x202f
    ||| n == 0x205f
    ||| n == 0x3000
}

/// `t` is `s` without its leading and trailing whitespace.
pub open spec fn is_trim_of(t: Seq<char>, s: Seq<char>) -> bool {
    exists|a: int, b: int|
        0 <= a <= b <= s.len() && t == s.subrange(a, b) && (forall|k: int|
            0 <= k < a ==> white_space(#[trigger] s[k])) && (forall|k: int|
            b <= k < s.len() ==> white_space(#[trigger] s[k])) && (a < b ==> !white_space(s[a])
            && !white_space(s[b - 1]))
}

/// Calls `str::trim`: the text without its leading and trailing whitespace,
/// as std documents it (whitespace being the `White_Space` characters).
#[verifier::external_body]
fn trim(s: &str) -> (r: &str)
    ensures
        is_trim_of(r@, s@),
{
    s.trim()
}

/// A name made of whitespace only (the empty name included).
pub open spec fn blank(s: Seq<char>) -> bool {
    forall|k: int| 0 <= k < s.len() ==> white_space(#[trigger] s[k])
}

/// Whether a name is blank: whether it trims to nothing.
fn is_blank(s: &str) -> (r: bool)
    ensures
        r == blank(s@),
{
    let t = trim(s);
    proof {
        let (a, b) = choose|a: int, b: int|
            0 <= a <= b <= s@.len() && t@ == s@.subrange(a, b) && (forall|k: int|
                0 <= k < a ==> white_space(#[trigger] s@[k])) && (forall|k: int|
                b <= k < s@.len() ==> white_space(#[trigger] s@[k])) && (a < b ==> !white_space(
                s@[a],
            ) && !white_space(s@[b - 1]));
        if a == b {
            assert forall|k: int| 0 <= k < s@.len() implies white_space(#[trigger] s@[k]) by {}
        } else {
            assert(!white_space(s@[a]));
        }
    }
    t.is_empty()
}

/// The problem with market `i` of the list, checked in this order, if any.
/// A duplicate is a same base and quote among the markets before it.
pub open spec fn issue_at(ms: Seq<MarketListing>, i: int) -> Option<MarketConfigIssue> {
    let m = ms[i];
    if blank(m.base@) {
        Some(MarketConfigIssue::EmptyBase)
    } else if blank(m.quote@) {
        Some(MarketConfigIssue::EmptyQuote)
    } else if m.base@ == m.quote@ {
        Some(MarketConfigIssue::SameAssets)
    } else if exists|j: int| 0 <= j < i && (#[trigger] ms[j]).base@ == m.base@ && ms[j].quote@ == m.quote@ {
        Some(MarketConfigIssue::Duplicate)
    } else if m.market_index != i {
        Some(MarketConfigIssue::IndexMismatch)
    } else {
        None
    }
}

/// Every market of the list is in order.
pub open spec fn markets_config_ok(ms: Seq<MarketListing>) -> bool {
    forall|i: int| 0 <= i < ms.len() ==> (#[trigger] issue_at(ms, i)) is None
}

/// A market list that passes the check is dense and position-stable: each
/// market's index is its position; no two markets share base and quote; and
/// every market names two different, non-blank assets.
pub proof fn lemma_valid_config_is_dense(ms: Seq<MarketListing>)
    requires
        markets_config_ok(ms),
    ensures
        forall|i: int| 0 <= i < ms.len() ==> (#[trigger] ms[i]).market_index == i,
        forall|i: int, j: int|
            0 <= i < j < ms.len() ==> !((#[trigger] ms[i]).base@ == (#[trigger] ms[j]).base@
                && ms[i].quote@ == ms[j].quote@),
        forall|i: int|
            0 <= i < ms.len() ==> !blank((#[trigger] ms[i]).base@) && !blank(ms[i].quote@)
                && ms[i].base@ != ms[i].quote@,
{
    assert forall|i: int| 0 <= i < ms.len() implies (#[trigger] ms[i]).market_index == i by {
        assert(issue_at(ms, i) is None);
    }
    assert forall|i: int, j: int|
        0 <= i < j < ms.len() implies !((#[trigger] ms[i]).base@ == (#[trigger] ms[j]).base@
            && ms[i].quote@ == ms[j].quote@) by {
        assert(issue_at(ms, j) is None);
    }
    assert forall|i: int|
        0 <= i < ms.len() implies !blank((#[trigger] ms[i]).base@) && !blank(ms[i].quote@)
            && ms[i].base@ != ms[i].quote@ by {
        assert(issue_at(ms, i) is None);
    }
}

/// Checks the market list in order and stops at the first market with a
/// problem: its position and the problem.
pub fn check_markets_config(markets: &Vec<MarketListing>) -> (r: Result<(), (usize, MarketConfigIssue)>)
    ensures
        r is Ok <==> markets_config_ok(markets@),
        r matches Err((i, issue)) ==> {
            &&& i < markets.len()
            &&& issue_at(markets@, i as int) == Some(issue)
            &&& forall|j: int| 0 <= j < i ==> (#[trigger] issue_at(markets@, j)) is None
        },
{
    let mut i: usize = 0;
    while i < markets.len()
        invariant
            i <= markets.len(),
            forall|j: int| 0 <= j < i ==> (#[trigger] issue_at(markets@, j)) is None,
        decreases markets.len() - i,
    {
        let m = &markets[i];
        if is_blank(m.base.as_str()) {
            return Err((i, MarketConfigIssue::EmptyBase));
        }
        if is_blank(m.quote.as_str()) {
            return Err((i, MarketConfigIssue::EmptyQuote));
        }
        if m.base == m.quote {
            return Err((i, MarketConfigIssue::SameAssets));
        }
        let mut j: usize = 0;
        while j < i
            invariant
                i < markets.len(),
                j <= i,
                m == markets@[i as int],
                !blank(m.base@),
                !blank(m.quote@),
                m.base@ != m.quote@,
                forall|k: int| 0 <= k < i ==> (#[trigger] issue_at(markets@, k)) is None,
                forall|k: int|
                    0 <= k < j ==> !((#[trigger] markets@[k]).base@ == m.base@ && markets@[k].quote@
                        == m.quote@),
            decreases i - j,
        {
            if markets[j].base == m.base && markets[j].quote == m.quote {
                proof {
                    assert(markets@[j as int].base@ == m.base@ && markets@[j as int].quote@ == m.quote@);
                }
                return Err((i, MarketConfigIssue::Duplicate));
            }
            j = j + 1;
        }
        if m.market_index < 0 || m.market_index as usize != i {
            return Err((i, MarketConfigIssue::IndexMismatch));
        }
        i = i + 1;
    }
    Ok(())
}

/// Whether every configured market is in order.
pub fn validate_markets_config(markets: &Vec<MarketListing>) -> (r: bool)
    ensures
        r == markets_config_ok(markets@),
{
    check_markets_config(markets).is_ok()
}

} // verus!
