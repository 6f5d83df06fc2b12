//! Client configuration and ADO.NET connection strings.
use vstd::prelude::*;
use crate::error::{owned, Error};
use std::time::Duration;
use vstd::slice::slice_subrange;
use crate::text::{
    chars_of, eq_ignore_ascii_case_spec, eq_ignore_ascii_case_str, eq_str, find_char,
    first_index_of, is_whitespace, is_ws, lemma_first_index_bounds, lowercase_chars, parse_uint,
    parse_uint_spec, push_chars, push_str_chars, string_of, sub_chars, trim, trim_spec,
    unicode_lowercase,
};

verus! {

// ---------------------------------------------------------------------------
// Splitting a connection string
// ---------------------------------------------------------------------------

/// Characters skipped between pairs.
pub open spec fn is_pair_gap(c: char) -> bool {
    c == ';' || is_ws(c)
}

/// The first position at or after `i` that is not a `;` or whitespace.
pub open spec fn skip_gaps(s: Seq<char>, i: int) -> int
    decreases s.len() - i,
{
    if 0 <= i < s.len() && is_pair_gap(s[i]) {
        skip_gaps(s, i + 1)
    } else {
        i
    }
}

/// The first position at or after `i` that is not whitespace.
pub open spec fn skip_ws_from(s: Seq<char>, i: int) -> int
    decreases s.len() - i,
{
    if 0 <= i < s.len() && is_ws(s[i]) {
        skip_ws_from(s, i + 1)
    } else {
        i
    }
}

/// The first position at or after `i` holding `c`, or the end.
pub open spec fn find_from(s: Seq<char>, i: int, c: char) -> int
    decreases s.len() - i,
{
    if 0 <= i < s.len() && s[i] != c {
        find_from(s, i + 1, c)
    } else {
        i
    }
}

/// A quoted value read from `i` (just after the opening quote `q`), where a
/// doubled quote stands for one quote: the value and the position after the
/// closing quote, or `None` when the quote is never closed.
pub open spec fn quoted_value(s: Seq<char>, i: int, q: char) -> Option<(Seq<char>, int)>
    decreases s.len() - i,
{
    if i < 0 || i >= s.len() {
        None
    } else if s[i] == q {
        if i + 1 < s.len() && s[i + 1] == q {
            match quoted_value(s, i + 2, q) {
                Some((v, j)) => Some((seq![q] + v, j)),
                None => None,
            }
        } else {
            Some((Seq::empty(), i + 1))
        }
    } else {
        match quoted_value(s, i + 1, q) {
            Some((v, j)) => Some((seq![s[i]] + v, j)),
            None => None,
        }
    }
}

/// The value starting at `v` (after the `=` and any whitespace): a quoted
/// value, whose text after the closing quote up to the next `;` is dropped,
/// or the text up to the next `;` without its trailing whitespace.  Gives the value and the position of the
/// `;` (or the end); `None` for an unterminated quote.
pub open spec fn value_at(s: Seq<char>, v: int) -> Option<(Seq<char>, int)> {
    if 0 <= v < s.len() && (s[v] == '"' || s[v] == '\'') {
        match quoted_value(s, v + 1, s[v]) {
            Some((val, j)) => Some((val, find_from(s, j, ';'))),
            None => None,
        }
    } else {
        let n = find_from(s, v, ';');
        Some((trim_spec(s.subrange(v, n)), n))
    }
}

/// Why a connection string could not be split.
pub ghost enum SplitError {
    /// Text without `=` that is not only whitespace.
    MissingEquals(Seq<char>),
    /// A quoted value that is never closed, with its (trimmed) key.
    Unterminated(Seq<char>),
}

pub proof fn lemma_skip_gaps_ge(s: Seq<char>, i: int)
    ensures
        skip_gaps(s, i) >= i,
        i <= s.len() ==> skip_gaps(s, i) <= s.len(),
    decreases s.len() - i,
{
    if 0 <= i < s.len() && is_pair_gap(s[i]) {
        lemma_skip_gaps_ge(s, i + 1);
    }
}

pub proof fn lemma_skip_ws_ge(s: Seq<char>, i: int)
    ensures
        skip_ws_from(s, i) >= i,
        i <= s.len() ==> skip_ws_from(s, i) <= s.len(),
    decreases s.len() - i,
{
    if 0 <= i < s.len() && is_ws(s[i]) {
        lemma_skip_ws_ge(s, i + 1);
    }
}

pub proof fn lemma_find_ge(s: Seq<char>, i: int, c: char)
    ensures
        find_from(s, i, c) >= i,
        i <= s.len() ==> find_from(s, i, c) <= s.len(),
    decreases s.len() - i,
{
    if 0 <= i < s.len() && s[i] != c {
        lemma_find_ge(s, i + 1, c);
    }
}

pub proof fn lemma_quoted_ge(s: Seq<char>, i: int, q: char)
    ensures
        quoted_value(s, i, q) matches Some((v, j)) ==> i < j <= s.len(),
    decreases s.len() - i,
{
    if 0 <= i < s.len() {
        if s[i] == q {
            if i + 1 < s.len() && s[i + 1] == q {
                lemma_quoted_ge(s, i + 2, q);
            }
        } else {
            lemma_quoted_ge(s, i + 1, q);
        }
    }
}

pub proof fn lemma_value_at_ge(s: Seq<char>, v: int)
    requires
        0 <= v <= s.len(),
    ensures
        value_at(s, v) matches Some((val, n)) ==> v <= n <= s.len(),
{
    if 0 <= v < s.len() && (s[v] == '"' || s[v] == '\'') {
        lemma_quoted_ge(s, v + 1, s[v]);
        if let Some((val, j)) = quoted_value(s, v + 1, s[v]) {
            lemma_find_ge(s, j, ';');
        }
    } else {
        lemma_find_ge(s, v, ';');
    }
}

/// The key-value pairs of a connection string read from position `i`:
/// gaps of `;` and whitespace are skipped, a key runs to `=`, and pairs with
/// an empty (trimmed) key are dropped.  Keys are trimmed; values keep their
/// text.
pub open spec fn pairs_from(s: Seq<char>, i: int) -> Result<Seq<(Seq<char>, Seq<char>)>, SplitError>
    decreases s.len() - i,
{
    let a = skip_gaps(s, i);
    if i < 0 || a >= s.len() {
        Ok(Seq::empty())
    } else {
        let e = find_from(s, a, '=');
        if e >= s.len() {
            let rest = s.subrange(a, s.len() as int);
            if trim_spec(rest).len() == 0 {
                Ok(Seq::empty())
            } else {
                Err(SplitError::MissingEquals(rest))
            }
        } else {
            let key = trim_spec(s.subrange(a, e));
            let v = skip_ws_from(s, e + 1);
            match value_at(s, v) {
                None => Err(SplitError::Unterminated(key)),
                Some((val, n)) => {
                    proof {
                        lemma_skip_gaps_ge(s, i);
                        lemma_find_ge(s, a, '=');
                        lemma_skip_ws_ge(s, e + 1);
                        lemma_value_at_ge(s, v);
                    }
                    match pairs_from(s, n) {
                        Err(x) => Err(x),
                        Ok(ps) => Ok(
                            if key.len() > 0 {
                                seq![(key, val)] + ps
                            } else {
                                ps
                            },
                        ),
                    }
                },
            }
        }
    }
}

/// The message of a split error.
pub open spec fn split_error_text(e: SplitError) -> Seq<char> {
    match e {
        SplitError::MissingEquals(rest) => "invalid key-value pair (missing '='): '"@ + rest + "'"@,
        SplitError::Unterminated(key) => "unterminated quoted value for key '"@ + key + "'"@,
    }
}

pub open spec fn pair_views(ps: Seq<(String, String)>) -> Seq<(Seq<char>, Seq<char>)> {
    ps.map_values(|p: (String, String)| (p.0@, p.1@))
}

/// Pairs already read, then what remains.
pub open spec fn after(acc: Seq<(Seq<char>, Seq<char>)>, r: Result<Seq<(Seq<char>, Seq<char>)>, SplitError>) -> Result<
    Seq<(Seq<char>, Seq<char>)>,
    SplitError,
> {
    match r {
        Ok(ps) => Ok(acc + ps),
        Err(e) => Err(e),
    }
}

/// A quoted value read so far, then what remains.
pub open spec fn quoted_after(v: Seq<char>, r: Option<(Seq<char>, int)>) -> Option<(Seq<char>, int)> {
    match r {
        Some((w, j)) => Some((v + w, j)),
        None => None,
    }
}

/// Reads a quoted value after its opening quote `q` at `start`.
fn read_quoted(s: &[char], start: usize, q: char) -> (r: Option<(Vec<char>, usize)>)
    requires
        start <= s@.len(),
    ensures
        match quoted_value(s@, start as int, q) {
            None => r is None,
            Some((v, j)) => r matches Some((w, k)) && w@ == v && k == j,
        },
{
    let len = s.len();
    let mut i = start;
    let mut val: Vec<char> = Vec::new();
    loop
        invariant
            start <= i <= len,
            len == s@.len(),
            quoted_value(s@, start as int, q) == quoted_after(val@, quoted_value(s@, i as int, q)),
        decreases len - i,
    {
        if i >= len {
            return None;
        }
        if s[i] == q {
            if i + 1 < len && s[i + 1] == q {
                val.push(q);
                proof {
                    let ghost prev = val@.drop_last();
                    match quoted_value(s@, i + 2, q) {
                        Some((w, j)) => {
                            assert(prev + (seq![q] + w) =~= val@ + w);
                        },
                        None => {},
                    }
                }
                i = i + 2;
            } else {
                assert(val@ + Seq::<char>::empty() =~= val@);
                return Some((val, i + 1));
            }
        } else {
            let c = s[i];
            val.push(c);
            proof {
                let ghost prev = val@.drop_last();
                match quoted_value(s@, i + 1, q) {
                    Some((w, j)) => {
                        assert(prev + (seq![c] + w) =~= val@ + w);
                    },
                    None => {},
                }
            }
            i = i + 1;
        }
    }
}

/// Splits a connection string into `(key, value)` pairs.  Values in double
/// or single quotes may hold `;`, and a doubled quote inside stands for one
/// quote.  Keys are trimmed and pairs with empty keys dropped.
pub fn split_connection_string(conn_str: &str) -> (r: Result<Vec<(String, String)>, Error>)
    ensures
        match pairs_from(conn_str@, 0) {
            Ok(ps) => r matches Ok(v) && pair_views(v@) == ps,
            Err(e) => r matches Err(Error::Config(m)) && m@ == split_error_text(e),
        },
{
    let chars = chars_of(conn_str);
    let s = chars.as_slice();
    let len = s.len();
    let mut pairs: Vec<(String, String)> = Vec::new();
    let mut i: usize = 0;
    while i < len
        invariant
            i <= len,
            len == s@.len(),
            s@ == conn_str@,
            pairs_from(s@, 0) == after(pair_views(pairs@), pairs_from(s@, i as int)),
        ensures
            pairs_from(s@, 0) == Ok::<Seq<(Seq<char>, Seq<char>)>, SplitError>(pair_views(pairs@)),
        decreases len - i,
    {
        let ghost i0 = i as int;
        while i < len && (s[i] == ';' || is_whitespace(s[i]))
            invariant
                i0 <= i <= len,
                len == s@.len(),
                skip_gaps(s@, i0) == skip_gaps(s@, i as int),
            decreases len - i,
        {
            i = i + 1;
        }
        if i >= len {
            assert(pairs_from(s@, i0) == Ok::<Seq<(Seq<char>, Seq<char>)>, SplitError>(Seq::empty()));
            assert(pair_views(pairs@) + Seq::<(Seq<char>, Seq<char>)>::empty() =~= pair_views(pairs@));
            break;
        }
        let key_start = i;
        while i < len && s[i] != '='
            invariant
                key_start <= i <= len,
                len == s@.len(),
                find_from(s@, key_start as int, '=') == find_from(s@, i as int, '='),
            decreases len - i,
        {
            i = i + 1;
        }
        if i >= len {
            let remaining = sub_chars(s, key_start, len);
            let t = trim(remaining.as_slice());
            if t.len() == 0 {
                assert(pair_views(pairs@) + Seq::<(Seq<char>, Seq<char>)>::empty() =~= pair_views(pairs@));
                break;
            }
            let mut msg = chars_of("invalid key-value pair (missing '='): '");
            push_chars(&mut msg, remaining.as_slice());
            push_str_chars(&mut msg, "'");
            return Err(Error::Config(string_of(msg.as_slice())));
        }
        let key_end = i;
        let raw_key = sub_chars(s, key_start, key_end);
        let key = trim(raw_key.as_slice());
        i = i + 1;
        let ghost v_start = i as int;
        while i < len && is_whitespace(s[i])
            invariant
                v_start <= i <= len,
                len == s@.len(),
                skip_ws_from(s@, v_start) == skip_ws_from(s@, i as int),
            decreases len - i,
        {
            i = i + 1;
        }
        let ghost v = i as int;
        let value: Vec<char>;
        if i < len && (s[i] == '"' || s[i] == '\'') {
            let q = s[i];
            match read_quoted(s, i + 1, q) {
                None => {
                    let mut msg = chars_of("unterminated quoted value for key '");
                    push_chars(&mut msg, key.as_slice());
                    push_str_chars(&mut msg, "'");
                    return Err(Error::Config(string_of(msg.as_slice())));
                },
                Some((val, j)) => {
                    proof {
                        lemma_quoted_ge(s@, v + 1, q);
                    }
                    i = j;
                    let ghost j0 = j as int;
                    while i < len && s[i] != ';'
                        invariant
                            j0 <= i <= len,
                            len == s@.len(),
                            find_from(s@, j0, ';') == find_from(s@, i as int, ';'),
                        decreases len - i,
                    {
                        i = i + 1;
                    }
                    value = val;
                },
            }
        } else {
            let val_start = i;
            while i < len && s[i] != ';'
                invariant
                    val_start <= i <= len,
                    len == s@.len(),
                    find_from(s@, val_start as int, ';') == find_from(s@, i as int, ';'),
                decreases len - i,
            {
                i = i + 1;
            }
            let raw_value = sub_chars(s, val_start, i);
            value = trim(raw_value.as_slice());
        }
        proof {
            assert(value_at(s@, v) == Some((value@, i as int)));
            assert(s@.subrange(key_start as int, key_end as int) == raw_key@);
        }
        if key.len() > 0 {
            let ghost before = pair_views(pairs@);
            pairs.push((string_of(key.as_slice()), string_of(value.as_slice())));
            proof {
                assert(pair_views(pairs@) =~= before.push((key@, value@)));
                match pairs_from(s@, i as int) {
                    Ok(ps) => {
                        assert(before + (seq![(key@, value@)] + ps) =~= pair_views(pairs@) + ps);
                    },
                    Err(_) => {},
                }
            }
        }
        proof {
            if i >= len {
                assert(pairs_from(s@, i as int) == Ok::<Seq<(Seq<char>, Seq<char>)>, SplitError>(Seq::empty()));
                assert(pair_views(pairs@) + Seq::<(Seq<char>, Seq<char>)>::empty() =~= pair_views(pairs@));
            }
        }
    }
    Ok(pairs)
}

// ---------------------------------------------------------------------------
// Values of single keywords
// ---------------------------------------------------------------------------

/// The result of a boolean keyword: `true`, `yes`, `1`, `false`, `no`, `0`
/// in any case.
pub open spec fn conn_bool_spec(value: Seq<char>) -> Option<bool> {
    let l = unicode_lowercase(value);
    if l == "true"@ || l == "yes"@ || l == "1"@ {
        Some(true)
    } else if l == "false"@ || l == "no"@ || l == "0"@ {
        Some(false)
    } else {
        None
    }
}

pub open spec fn bool_error_text(key: Seq<char>, value: Seq<char>) -> Seq<char> {
    "invalid boolean value for '"@ + key + "': '"@ + value + "' (expected true/false/yes/no/1/0)"@
}

/// Parses the value of a boolean keyword (`true`, `false`, `yes`, `no`,
/// `1`, `0`, in any case); anything else is an error naming the key.
pub fn parse_conn_bool(key: &str, value: &str) -> (r: Result<bool, Error>)
    ensures
        match conn_bool_spec(value@) {
            Some(b) => r == Ok::<bool, Error>(b),
            None => r matches Err(Error::Config(m)) && m@ == bool_error_text(key@, value@),
        },
{
    let v = chars_of(value);
    let l = lowercase_chars(v.as_slice());
    let ls = l.as_slice();
    if crate::text::eq_str(ls, "true") || crate::text::eq_str(ls, "yes") || crate::text::eq_str(
        ls,
        "1",
    ) {
        Ok(true)
    } else if crate::text::eq_str(ls, "false") || crate::text::eq_str(ls, "no")
        || crate::text::eq_str(ls, "0") {
        Ok(false)
    } else {
        let mut msg = chars_of("invalid boolean value for '");
        push_str_chars(&mut msg, key);
        push_str_chars(&mut msg, "': '");
        push_str_chars(&mut msg, value);
        push_str_chars(&mut msg, "' (expected true/false/yes/no/1/0)");
        Err(Error::Config(string_of(msg.as_slice())))
    }
}

/// An empty value resets an optional setting.
pub open spec fn non_empty_spec(v: Seq<char>) -> Option<Seq<char>> {
    if v.len() == 0 {
        None
    } else {
        Some(v)
    }
}

pub open spec fn opt_view(o: Option<String>) -> Option<Seq<char>> {
    match o {
        Some(s) => Some(s@),
        None => None,
    }
}

/// `None` for an empty value, else the value.
pub fn non_empty(value: &str) -> (r: Option<String>)
    ensures
        opt_view(r) == non_empty_spec(value@),
{
    let v = chars_of(value);
    if v.len() == 0 {
        None
    } else {
        Some(string_of(v.as_slice()))
    }
}

// ---------------------------------------------------------------------------
// Durations
// ---------------------------------------------------------------------------

/// What `Duration::from_secs` returns.
pub uninterp spec fn secs_duration(secs: u64) -> Duration;

/// What `Duration::from_millis` returns.
pub uninterp spec fn millis_duration(millis: u64) -> Duration;

/// `<Duration as Clone>::clone`: `Duration` is `Copy`, so a clone is the
/// same value.
pub assume_specification[ <Duration as Clone>::clone ](d: &Duration) -> (r: Duration)
    ensures
        r == *d,
;

/// `Duration::from_secs`; the result is named by `secs_duration`.
#[verifier::external_body]
fn duration_from_secs(secs: u64) -> (r: Duration)
    ensures
        r == secs_duration(secs),
{
    Duration::from_secs(secs)
}

/// `Duration::from_millis`; the result is named by `millis_duration`.
#[verifier::external_body]
fn duration_from_millis(millis: u64) -> (r: Duration)
    ensures
        r == millis_duration(millis),
{
    Duration::from_millis(millis)
}

// ---------------------------------------------------------------------------
// Settings types
// ---------------------------------------------------------------------------

/// Authentication credentials.
#[derive(Debug, Clone, PartialEq, Eq)]
pub enum Credentials {
    /// SQL Server authentication.
    SqlServer { username: String, password: String },
    /// Integrated (Kerberos/SSPI) authentication.
    Integrated,
}

/// The abstract content of [`Credentials`].
pub ghost enum CredentialsView {
    SqlServer { username: Seq<char>, password: Seq<char> },
    Integrated,
}

pub open spec fn credentials_view(c: Credentials) -> CredentialsView {
    match c {
        Credentials::SqlServer { username, password } => CredentialsView::SqlServer {
            username: username@,
            password: password@,
        },
        Credentials::Integrated => CredentialsView::Integrated,
    }
}

/// TDS protocol versions a client can request.
#[derive(Debug, Clone, Copy, PartialEq, Eq, Structural)]
pub enum TdsVersion {
    /// TDS 7.3A (SQL Server 2008).
    V7_3A,
    /// TDS 7.3B (SQL Server 2008 R2).
    V7_3B,
    /// TDS 7.4 (SQL Server 2012 and later).
    V7_4,
    /// TDS 8.0 (SQL Server 2022 strict encryption).
    V8_0,
}

pub open spec fn tds_version_spec(v: Seq<char>) -> Option<TdsVersion> {
    if v == "7.3"@ || v == "7.3A"@ || v == "7.3a"@ {
        Some(TdsVersion::V7_3A)
    } else if v == "7.3B"@ || v == "7.3b"@ {
        Some(TdsVersion::V7_3B)
    } else if v == "7.4"@ {
        Some(TdsVersion::V7_4)
    } else if v == "8.0"@ {
        Some(TdsVersion::V8_0)
    } else {
        None
    }
}

impl TdsVersion {
    /// Reads `7.3` (meaning 7.3A), `7.3A`, `7.3B`, `7.4` or `8.0`.
    pub fn parse(s: &str) -> (r: Option<TdsVersion>)
        ensures
            r == tds_version_spec(s@),
    {
        let v = chars_of(s);
        let vs = v.as_slice();
        if crate::text::eq_str(vs, "7.3") || crate::text::eq_str(vs, "7.3A")
            || crate::text::eq_str(vs, "7.3a") {
            Some(TdsVersion::V7_3A)
        } else if crate::text::eq_str(vs, "7.3B") || crate::text::eq_str(vs, "7.3b") {
            Some(TdsVersion::V7_3B)
        } else if crate::text::eq_str(vs, "7.4") {
            Some(TdsVersion::V7_4)
        } else if crate::text::eq_str(vs, "8.0") {
            Some(TdsVersion::V8_0)
        } else {
            None
        }
    }

    /// Whether this is TDS 8.0.
    pub fn is_tds_8(&self) -> (r: bool)
        ensures
            r == (*self == TdsVersion::V8_0),
    {
        match self {
            TdsVersion::V8_0 => true,
            _ => false,
        }
    }
}

/// Application workload intent, for AlwaysOn availability group routing.
#[derive(Debug, Clone, Copy, PartialEq, Eq, Structural)]
pub enum ApplicationIntent {
    /// Read-write workload (the default).
    ReadWrite,
    /// Read-only workload, routable to a readable secondary.
    ReadOnly,
}

impl Default for ApplicationIntent {
    fn default() -> (r: Self)
        ensures
            r == ApplicationIntent::ReadWrite,
    {
        ApplicationIntent::ReadWrite
    }
}

/// Handling of server redirects (Azure SQL gateway routing).
#[derive(Debug, Clone, Copy, PartialEq, Eq, Structural)]
pub struct RedirectConfig {
    /// Most redirects followed before giving up.
    pub max_redirects: u8,
    /// Whether redirects are followed at all.
    pub follow_redirects: bool,
}

impl Default for RedirectConfig {
    fn default() -> (r: Self)
        ensures
            r.max_redirects == 2,
            r.follow_redirects,
    {
        RedirectConfig { max_redirects: 2, follow_redirects: true }
    }
}

impl RedirectConfig {
    /// The default: follow up to two redirects.
    pub fn new() -> (r: Self)
        ensures
            r.max_redirects == 2,
            r.follow_redirects,
    {
        RedirectConfig { max_redirects: 2, follow_redirects: true }
    }

    /// Never follow redirects.
    pub fn no_follow() -> (r: Self)
        ensures
            r.max_redirects == 0,
            !r.follow_redirects,
    {
        RedirectConfig { max_redirects: 0, follow_redirects: false }
    }

    /// Sets the most redirects followed.
    pub fn max_redirects(self, max: u8) -> (r: Self)
        ensures
            r == (RedirectConfig { max_redirects: max, ..self }),
    {
        RedirectConfig { max_redirects: max, ..self }
    }

    /// Sets whether redirects are followed.
    pub fn follow_redirects(self, follow: bool) -> (r: Self)
        ensures
            r == (RedirectConfig { follow_redirects: follow, ..self }),
    {
        RedirectConfig { follow_redirects: follow, ..self }
    }
}

/// Retries of transient connection failures, with exponential backoff.
/// The backoff multiplier is kept in thousandths.
#[derive(Debug, Clone, Copy)]
pub struct RetryPolicy {
    /// Most retries after the first attempt.
    pub max_retries: u32,
    /// Backoff before the first retry.
    pub initial_backoff: Duration,
    /// Upper bound of the backoff.
    pub max_backoff: Duration,
    /// Factor between successive backoffs, in thousandths.
    pub backoff_multiplier_permille: u32,
    /// Whether a random jitter is added to each backoff.
    pub jitter: bool,
}

impl Default for RetryPolicy {
    fn default() -> (r: Self)
        ensures
            r.max_retries == 3,
            r.initial_backoff == millis_duration(100),
            r.max_backoff == secs_duration(30),
            r.backoff_multiplier_permille == 2000,
            r.jitter,
    {
        RetryPolicy {
            max_retries: 3,
            initial_backoff: duration_from_millis(100),
            max_backoff: duration_from_secs(30),
            backoff_multiplier_permille: 2000,
            jitter: true,
        }
    }
}

impl RetryPolicy {
    /// The default policy: three retries from 100 ms, doubling, up to 30 s,
    /// with jitter.
    pub fn new() -> (r: Self)
        ensures
            r.max_retries == 3,
            r.initial_backoff == millis_duration(100),
            r.max_backoff == secs_duration(30),
            r.backoff_multiplier_permille == 2000,
            r.jitter,
    {
        RetryPolicy::default()
    }

    /// A policy that never retries.
    pub fn no_retry() -> (r: Self)
        ensures
            r.max_retries == 0,
            r.initial_backoff == millis_duration(100),
            r.max_backoff == secs_duration(30),
            r.backoff_multiplier_permille == 2000,
            r.jitter,
    {
        RetryPolicy { max_retries: 0, ..RetryPolicy::default() }
    }

    /// Sets the most retries.
    pub fn max_retries(self, max: u32) -> (r: Self)
        ensures
            r.max_retries == max,
            r.initial_backoff == self.initial_backoff,
            r.max_backoff == self.max_backoff,
            r.backoff_multiplier_permille == self.backoff_multiplier_permille,
            r.jitter == self.jitter,
    {
        RetryPolicy { max_retries: max, ..self }
    }

    /// Sets the backoff before the first retry.
    pub fn initial_backoff(self, backoff: Duration) -> (r: Self)
        ensures
            r.max_retries == self.max_retries,
            r.initial_backoff == backoff,
            r.max_backoff == self.max_backoff,
            r.backoff_multiplier_permille == self.backoff_multiplier_permille,
            r.jitter == self.jitter,
    {
        RetryPolicy { initial_backoff: backoff, ..self }
    }

    /// Sets the upper bound of the backoff.
    pub fn max_backoff(self, backoff: Duration) -> (r: Self)
        ensures
            r.max_retries == self.max_retries,
            r.initial_backoff == self.initial_backoff,
            r.max_backoff == backoff,
            r.backoff_multiplier_permille == self.backoff_multiplier_permille,
            r.jitter == self.jitter,
    {
        RetryPolicy { max_backoff: backoff, ..self }
    }

    /// Sets the factor between successive backoffs, in thousandths.
    pub fn backoff_multiplier_permille(self, permille: u32) -> (r: Self)
        ensures
            r.max_retries == self.max_retries,
            r.initial_backoff == self.initial_backoff,
            r.max_backoff == self.max_backoff,
            r.backoff_multiplier_permille == permille,
            r.jitter == self.jitter,
    {
        RetryPolicy { backoff_multiplier_permille: permille, ..self }
    }

    /// Sets whether jitter is added.
    pub fn jitter(self, enabled: bool) -> (r: Self)
        ensures
            r.max_retries == self.max_retries,
            r.initial_backoff == self.initial_backoff,
            r.max_backoff == self.max_backoff,
            r.backoff_multiplier_permille == self.backoff_multiplier_permille,
            r.jitter == enabled,
    {
        RetryPolicy { jitter: enabled, ..self }
    }

    /// Whether attempt number `attempt` (counting retries from 0) may still
    /// be retried.
    pub fn should_retry(&self, attempt: u32) -> (r: bool)
        ensures
            r == (attempt < self.max_retries),
    {
        attempt < self.max_retries
    }
}

/// Timeouts of the phases of a connection.
#[derive(Debug, Clone, Copy)]
pub struct TimeoutConfig {
    /// TCP connect.
    pub connect_timeout: Duration,
    /// TLS handshake.
    pub tls_timeout: Duration,
    /// LOGIN7 exchange.
    pub login_timeout: Duration,
    /// Default command timeout.
    pub command_timeout: Duration,
    /// Idle time before a pooled connection is dropped.
    pub idle_timeout: Duration,
    /// TCP keepalive interval, if any.
    pub keepalive_interval: Option<Duration>,
}

/// The default timeouts: connect 15 s, TLS 10 s, login 30 s, command 30 s,
/// idle 300 s, keepalive every 30 s.
pub open spec fn default_timeouts(t: TimeoutConfig) -> bool {
    &&& t.connect_timeout == secs_duration(15)
    &&& t.tls_timeout == secs_duration(10)
    &&& t.login_timeout == secs_duration(30)
    &&& t.command_timeout == secs_duration(30)
    &&& t.idle_timeout == secs_duration(300)
    &&& t.keepalive_interval == Some(secs_duration(30))
}

impl Default for TimeoutConfig {
    fn default() -> (r: Self)
        ensures
            default_timeouts(r),
    {
        TimeoutConfig {
            connect_timeout: duration_from_secs(15),
            tls_timeout: duration_from_secs(10),
            login_timeout: duration_from_secs(30),
            command_timeout: duration_from_secs(30),
            idle_timeout: duration_from_secs(300),
            keepalive_interval: Some(duration_from_secs(30)),
        }
    }
}

impl TimeoutConfig {
    /// The default timeouts.
    pub fn new() -> (r: Self)
        ensures
            default_timeouts(r),
    {
        TimeoutConfig::default()
    }

    /// Sets the connect timeout.
    pub fn connect_timeout(self, timeout: Duration) -> (r: Self)
        ensures
            r == (TimeoutConfig { connect_timeout: timeout, ..self }),
    {
        TimeoutConfig { connect_timeout: timeout, ..self }
    }

    /// Sets the TLS handshake timeout.
    pub fn tls_timeout(self, timeout: Duration) -> (r: Self)
        ensures
            r == (TimeoutConfig { tls_timeout: timeout, ..self }),
    {
        TimeoutConfig { tls_timeout: timeout, ..self }
    }

    /// Sets the login timeout.
    pub fn login_timeout(self, timeout: Duration) -> (r: Self)
        ensures
            r == (TimeoutConfig { login_timeout: timeout, ..self }),
    {
        TimeoutConfig { login_timeout: timeout, ..self }
    }

    /// Sets the command timeout.
    pub fn command_timeout(self, timeout: Duration) -> (r: Self)
        ensures
            r == (TimeoutConfig { command_timeout: timeout, ..self }),
    {
        TimeoutConfig { command_timeout: timeout, ..self }
    }

    /// Sets the idle timeout.
    pub fn idle_timeout(self, timeout: Duration) -> (r: Self)
        ensures
            r == (TimeoutConfig { idle_timeout: timeout, ..self }),
    {
        TimeoutConfig { idle_timeout: timeout, ..self }
    }

    /// Sets the keepalive interval.
    pub fn keepalive_interval(self, interval: Option<Duration>) -> (r: Self)
        ensures
            r == (TimeoutConfig { keepalive_interval: interval, ..self }),
    {
        TimeoutConfig { keepalive_interval: interval, ..self }
    }

    /// Turns keepalive off.
    pub fn no_keepalive(self) -> (r: Self)
        ensures
            r == (TimeoutConfig { keepalive_interval: None, ..self }),
    {
        TimeoutConfig { keepalive_interval: None, ..self }
    }
}

// ---------------------------------------------------------------------------
// The configuration
// ---------------------------------------------------------------------------

/// Settings for connecting to SQL Server.
#[derive(Debug, Clone)]
pub struct Config {
    /// Server host name or address.
    pub host: String,
    /// Server port.
    pub port: u16,
    /// Initial database.
    pub database: Option<String>,
    /// Authentication credentials.
    pub credentials: Credentials,
    /// Application name shown by the server's tools.
    pub application_name: String,
    /// Connect timeout.
    pub connect_timeout: Duration,
    /// Command timeout.
    pub command_timeout: Duration,
    /// TDS packet size.
    pub packet_size: u16,
    /// TDS 8.0 strict mode.
    pub strict_mode: bool,
    /// Trust the server certificate without validation.
    pub trust_server_certificate: bool,
    /// Named instance.
    pub instance: Option<String>,
    /// Multiple active result sets.
    pub mars: bool,
    /// Require TLS.
    pub encrypt: bool,
    /// No TLS at all (plaintext, for legacy servers).
    pub no_tls: bool,
    /// Redirect handling.
    pub redirect: RedirectConfig,
    /// Retry policy for transient errors.
    pub retry: RetryPolicy,
    /// Timeouts of the connection phases.
    pub timeouts: TimeoutConfig,
    /// Requested TDS version.
    pub tds_version: TdsVersion,
    /// Workload intent for availability group routing.
    pub application_intent: ApplicationIntent,
    /// Workstation name sent at login.
    pub workstation_id: Option<String>,
    /// Session language.
    pub language: Option<String>,
    /// Parallel connection attempts to all addresses of the host.
    pub multi_subnet_failover: bool,
    /// Send string parameters as NVARCHAR.
    pub send_string_parameters_as_unicode: bool,
}

/// The abstract content of a [`Config`].
pub ghost struct ConfigView {
    pub host: Seq<char>,
    pub port: u16,
    pub database: Option<Seq<char>>,
    pub credentials: CredentialsView,
    pub application_name: Seq<char>,
    pub connect_timeout: Duration,
    pub command_timeout: Duration,
    pub packet_size: u16,
    pub strict_mode: bool,
    pub trust_server_certificate: bool,
    pub instance: Option<Seq<char>>,
    pub mars: bool,
    pub encrypt: bool,
    pub no_tls: bool,
    pub redirect: RedirectConfig,
    pub retry: RetryPolicy,
    pub timeouts: TimeoutConfig,
    pub tds_version: TdsVersion,
    pub application_intent: ApplicationIntent,
    pub workstation_id: Option<Seq<char>>,
    pub language: Option<Seq<char>>,
    pub multi_subnet_failover: bool,
    pub send_string_parameters_as_unicode: bool,
}

impl View for Config {
    type V = ConfigView;

    open spec fn view(&self) -> ConfigView {
        ConfigView {
            host: self.host@,
            port: self.port,
            database: opt_view(self.database),
            credentials: credentials_view(self.credentials),
            application_name: self.application_name@,
            connect_timeout: self.connect_timeout,
            command_timeout: self.command_timeout,
            packet_size: self.packet_size,
            strict_mode: self.strict_mode,
            trust_server_certificate: self.trust_server_certificate,
            instance: opt_view(self.instance),
            mars: self.mars,
            encrypt: self.encrypt,
            no_tls: self.no_tls,
            redirect: self.redirect,
            retry: self.retry,
            timeouts: self.timeouts,
            tds_version: self.tds_version,
            application_intent: self.application_intent,
            workstation_id: opt_view(self.workstation_id),
            language: opt_view(self.language),
            multi_subnet_failover: self.multi_subnet_failover,
            send_string_parameters_as_unicode: self.send_string_parameters_as_unicode,
        }
    }
}

/// The default configuration, as a value.
pub open spec fn default_config_view() -> ConfigView {
    ConfigView {
        host: "localhost"@,
        port: 1433,
        database: None,
        credentials: CredentialsView::SqlServer { username: Seq::empty(), password: Seq::empty() },
        application_name: "mssql-client"@,
        connect_timeout: secs_duration(15),
        command_timeout: secs_duration(30),
        packet_size: 4096,
        strict_mode: false,
        trust_server_certificate: false,
        instance: None,
        mars: false,
        encrypt: true,
        no_tls: false,
        redirect: RedirectConfig { max_redirects: 2, follow_redirects: true },
        retry: RetryPolicy {
            max_retries: 3,
            initial_backoff: millis_duration(100),
            max_backoff: secs_duration(30),
            backoff_multiplier_permille: 2000,
            jitter: true,
        },
        timeouts: TimeoutConfig {
            connect_timeout: secs_duration(15),
            tls_timeout: secs_duration(10),
            login_timeout: secs_duration(30),
            command_timeout: secs_duration(30),
            idle_timeout: secs_duration(300),
            keepalive_interval: Some(secs_duration(30)),
        },
        tds_version: TdsVersion::V7_4,
        application_intent: ApplicationIntent::ReadWrite,
        workstation_id: None,
        language: None,
        multi_subnet_failover: false,
        send_string_parameters_as_unicode: true,
    }
}

/// The default configuration: `localhost:1433`, SQL Server credentials with
/// empty user and password, application `mssql-client`, packet size 4096,
/// TLS required, TDS 7.4, Unicode string parameters, default timeouts,
/// redirects and retries; everything else off or unset.
pub open spec fn default_config_spec(c: ConfigView) -> bool {
    &&& c.host == "localhost"@
    &&& c.port == 1433
    &&& c.database is None
    &&& c.credentials == CredentialsView::SqlServer { username: Seq::empty(), password: Seq::empty() }
    &&& c.application_name == "mssql-client"@
    &&& c.connect_timeout == secs_duration(15)
    &&& c.command_timeout == secs_duration(30)
    &&& c.packet_size == 4096
    &&& !c.strict_mode
    &&& !c.trust_server_certificate
    &&& c.instance is None
    &&& !c.mars
    &&& c.encrypt
    &&& !c.no_tls
    &&& c.redirect == RedirectConfig { max_redirects: 2, follow_redirects: true }
    &&& c.retry.max_retries == 3
    &&& c.retry.initial_backoff == millis_duration(100)
    &&& c.retry.max_backoff == secs_duration(30)
    &&& c.retry.backoff_multiplier_permille == 2000
    &&& c.retry.jitter
    &&& default_timeouts(c.timeouts)
    &&& c.tds_version == TdsVersion::V7_4
    &&& c.application_intent == ApplicationIntent::ReadWrite
    &&& c.workstation_id is None
    &&& c.language is None
    &&& !c.multi_subnet_failover
    &&& c.send_string_parameters_as_unicode
}

impl Default for Config {
    fn default() -> (r: Self)
        ensures
            default_config_spec(r@),
            r@ == default_config_view(),
    {
        let timeouts = TimeoutConfig::default();
        let user = owned("");
        let password = owned("");
        proof {
            reveal_strlit("");
            assert(user@ =~= Seq::<char>::empty());
            assert(password@ =~= Seq::<char>::empty());
        }
        Config {
            host: owned("localhost"),
            port: 1433,
            database: None,
            credentials: Credentials::SqlServer { username: user, password },
            application_name: owned("mssql-client"),
            connect_timeout: timeouts.connect_timeout,
            command_timeout: timeouts.command_timeout,
            packet_size: 4096,
            strict_mode: false,
            trust_server_certificate: false,
            instance: None,
            mars: false,
            encrypt: true,
            no_tls: false,
            redirect: RedirectConfig::default(),
            retry: RetryPolicy::default(),
            timeouts,
            tds_version: TdsVersion::V7_4,
            application_intent: ApplicationIntent::default(),
            workstation_id: None,
            language: None,
            multi_subnet_failover: false,
            send_string_parameters_as_unicode: true,
        }
    }
}

// ---------------------------------------------------------------------------
// Connection-string keywords
// ---------------------------------------------------------------------------

/// Whether `v` starts with `p`, ignoring ASCII case.
pub open spec fn has_prefix_ci(v: Seq<char>, p: Seq<char>) -> bool {
    v.len() >= p.len() && eq_ignore_ascii_case_spec(v.take(p.len() as int), p)
}

pub open spec fn np_error_text() -> Seq<char> {
    "Named Pipes connections (np:) are not supported. Use TCP connections instead."@
}

pub open spec fn lpc_error_text() -> Seq<char> {
    "Shared Memory connections (lpc:) are not supported. Use TCP connections instead."@
}

pub open spec fn integrated_error_text() -> Seq<char> {
    "Integrated Security requires the 'integrated-auth' (Linux/macOS) or 'sspi-auth' (Windows) feature to be enabled"@
}

pub open spec fn encryption_error_text() -> Seq<char> {
    "Column Encryption Setting=Enabled requires the 'always-encrypted' feature. Enable it in your Cargo.toml: mssql-client = { features = [\"always-encrypted\"] }"@
}

/// A server value: an optional `tcp:` prefix (`np:` and `lpc:` are
/// refused), then `host,port`, `host\instance` or `host`.
pub open spec fn apply_server(c: ConfigView, value: Seq<char>) -> Result<ConfigView, Seq<char>> {
    let tcp = has_prefix_ci(value, "tcp:"@);
    if !tcp && has_prefix_ci(value, "np:"@) {
        Err(np_error_text())
    } else if !tcp && has_prefix_ci(value, "lpc:"@) {
        Err(lpc_error_text())
    } else {
        let sv = if tcp {
            value.skip(4)
        } else {
            value
        };
        match first_index_of(sv, ',') {
            Some(p) => {
                let rest = sv.skip(p + 1);
                match parse_uint_spec(trim_spec(rest), 65535) {
                    Some(n) => Ok(ConfigView { host: sv.take(p), port: n as u16, ..c }),
                    None => Err("invalid port: "@ + rest),
                }
            },
            None => match first_index_of(sv, '\\') {
                Some(p) => Ok(
                    ConfigView { host: sv.take(p), instance: non_empty_spec(sv.skip(p + 1)), ..c },
                ),
                None => Ok(ConfigView { host: sv, ..c }),
            },
        }
    }
}

pub open spec fn is_server_key(k: Seq<char>) -> bool {
    k == "server"@ || k == "data source"@ || k == "addr"@ || k == "address"@ || k
        == "network address"@ || k == "host"@
}

/// A boolean keyword: its value parsed, or the error naming the key.
pub open spec fn bool_setting(key: Seq<char>, value: Seq<char>) -> Result<bool, Seq<char>> {
    match conn_bool_spec(value) {
        Some(b) => Ok(b),
        None => Err(bool_error_text(key, value)),
    }
}

/// The `Encrypt` keyword: `strict`, `mandatory`, `optional`, `no_tls` (any
/// ASCII case) or a boolean.
pub open spec fn apply_encrypt(c: ConfigView, key: Seq<char>, value: Seq<char>) -> Result<ConfigView, Seq<char>> {
    if eq_ignore_ascii_case_spec(value, "strict"@) {
        Ok(ConfigView { strict_mode: true, encrypt: true, no_tls: false, ..c })
    } else if eq_ignore_ascii_case_spec(value, "mandatory"@) {
        Ok(ConfigView { encrypt: true, no_tls: false, ..c })
    } else if eq_ignore_ascii_case_spec(value, "optional"@) {
        Ok(ConfigView { encrypt: false, no_tls: false, ..c })
    } else if eq_ignore_ascii_case_spec(value, "no_tls"@) {
        Ok(ConfigView { no_tls: true, encrypt: false, ..c })
    } else {
        match bool_setting(key, value) {
            Ok(b) => Ok(ConfigView { encrypt: b, no_tls: false, ..c }),
            Err(m) => Err(m),
        }
    }
}

pub open spec fn is_number_key(k: Seq<char>) -> bool {
    k == "port"@ || k == "connect timeout"@ || k == "connection timeout"@ || k == "timeout"@ || k
        == "command timeout"@ || k == "packet size"@ || k == "connectretrycount"@ || k
        == "connect retry count"@ || k == "connectretryinterval"@ || k == "connect retry interval"@
}

pub open spec fn is_text_key(k: Seq<char>) -> bool {
    k == "database"@ || k == "initial catalog"@ || k == "user id"@ || k == "uid"@ || k == "user"@
        || k == "password"@ || k == "pwd"@ || k == "application name"@ || k == "app"@ || k
        == "workstation id"@ || k == "wsid"@ || k == "current language"@ || k == "language"@
}

pub open spec fn is_bool_key(k: Seq<char>) -> bool {
    k == "trustservercertificate"@ || k == "trust server certificate"@ || k
        == "multipleactiveresultsets"@ || k == "mars"@ || k == "multisubnetfailover"@ || k
        == "multi subnet failover"@ || k == "sendstringparametersasunicode"@ || k
        == "send string parameters as unicode"@
}

/// Keywords with a number: the port, the timeouts (seconds), the packet
/// size and the connection retry count and interval (seconds).
pub open spec fn number_option(c: ConfigView, key: Seq<char>, value: Seq<char>) -> Result<ConfigView, Seq<char>> {
    if key == "port"@ {
        match parse_uint_spec(value, 65535) {
            Some(n) => Ok(ConfigView { port: n as u16, ..c }),
            None => Err("invalid port: "@ + value),
        }
    } else if key == "connect timeout"@ || key == "connection timeout"@ || key == "timeout"@ {
        match parse_uint_spec(value, u64::MAX as nat) {
            Some(n) => Ok(ConfigView { connect_timeout: secs_duration(n as u64), ..c }),
            None => Err("invalid timeout: "@ + value),
        }
    } else if key == "command timeout"@ {
        match parse_uint_spec(value, u64::MAX as nat) {
            Some(n) => Ok(ConfigView { command_timeout: secs_duration(n as u64), ..c }),
            None => Err("invalid timeout: "@ + value),
        }
    } else if key == "packet size"@ {
        match parse_uint_spec(value, 65535) {
            Some(n) => Ok(ConfigView { packet_size: n as u16, ..c }),
            None => Err("invalid packet size: "@ + value),
        }
    } else if key == "connectretrycount"@ || key == "connect retry count"@ {
        match parse_uint_spec(value, u32::MAX as nat) {
            Some(n) => Ok(ConfigView { retry: RetryPolicy { max_retries: n as u32, ..c.retry }, ..c }),
            None => Err("invalid ConnectRetryCount: '"@ + value + "'"@),
        }
    } else {
        match parse_uint_spec(value, u64::MAX as nat) {
            Some(n) => Ok(
                ConfigView {
                    retry: RetryPolicy { initial_backoff: secs_duration(n as u64), ..c.retry },
                    ..c
                },
            ),
            None => Err("invalid ConnectRetryInterval: '"@ + value + "'"@),
        }
    }
}

/// Keywords with text: the database, user and password (of SQL Server
/// credentials), application name, workstation and language.  An empty
/// database, workstation or language resets it.
pub open spec fn text_option(c: ConfigView, key: Seq<char>, value: Seq<char>) -> ConfigView {
    if key == "database"@ || key == "initial catalog"@ {
        ConfigView { database: non_empty_spec(value), ..c }
    } else if key == "user id"@ || key == "uid"@ || key == "user"@ {
        match c.credentials {
            CredentialsView::SqlServer { username, password } => ConfigView {
                credentials: CredentialsView::SqlServer { username: value, password: password },
                ..c
            },
            _ => c,
        }
    } else if key == "password"@ || key == "pwd"@ {
        match c.credentials {
            CredentialsView::SqlServer { username, password } => ConfigView {
                credentials: CredentialsView::SqlServer { username: username, password: value },
                ..c
            },
            _ => c,
        }
    } else if key == "application name"@ || key == "app"@ {
        ConfigView { application_name: value, ..c }
    } else if key == "workstation id"@ || key == "wsid"@ {
        ConfigView { workstation_id: non_empty_spec(value), ..c }
    } else {
        ConfigView { language: non_empty_spec(value), ..c }
    }
}

/// Keywords with a boolean.
pub open spec fn bool_option(c: ConfigView, key: Seq<char>, value: Seq<char>) -> Result<ConfigView, Seq<char>> {
    match bool_setting(key, value) {
        Err(m) => Err(m),
        Ok(b) => Ok(
            if key == "trustservercertificate"@ || key == "trust server certificate"@ {
                ConfigView { trust_server_certificate: b, ..c }
            } else if key == "multipleactiveresultsets"@ || key == "mars"@ {
                ConfigView { mars: b, ..c }
            } else if key == "multisubnetfailover"@ || key == "multi subnet failover"@ {
                ConfigView { multi_subnet_failover: b, ..c }
            } else {
                ConfigView { send_string_parameters_as_unicode: b, ..c }
            },
        ),
    }
}

/// What one keyword (trimmed and lower-cased) with its (trimmed) value does
/// to a configuration.  Keywords of the pool, keywords of other drivers and
/// unknown keywords leave it as it is.
pub open spec fn apply_option_spec(c: ConfigView, key: Seq<char>, value: Seq<char>) -> Result<ConfigView, Seq<char>> {
    if is_server_key(key) {
        apply_server(c, value)
    } else if is_number_key(key) {
        number_option(c, key, value)
    } else if is_text_key(key) {
        Ok(text_option(c, key, value))
    } else if is_bool_key(key) {
        bool_option(c, key, value)
    } else if key == "applicationintent"@ || key == "application intent"@ {
        let l = unicode_lowercase(value);
        if l == "readonly"@ {
            Ok(ConfigView { application_intent: ApplicationIntent::ReadOnly, ..c })
        } else if l == "readwrite"@ {
            Ok(ConfigView { application_intent: ApplicationIntent::ReadWrite, ..c })
        } else {
            Err("invalid ApplicationIntent: '"@ + value + "' (expected ReadOnly or ReadWrite)"@)
        }
    } else if key == "encrypt"@ {
        apply_encrypt(c, key, value)
    } else if key == "integrated security"@ || key == "trusted_connection"@ {
        if eq_ignore_ascii_case_spec(value, "sspi"@) {
            Err(integrated_error_text())
        } else {
            match bool_setting(key, value) {
                Ok(true) => Err(integrated_error_text()),
                Ok(false) => Ok(c),
                Err(m) => Err(m),
            }
        }
    } else if key == "column encryption setting"@ || key == "columnencryptionsetting"@ {
        if eq_ignore_ascii_case_spec(value, "enabled"@) {
            Err(encryption_error_text())
        } else {
            Ok(c)
        }
    } else if key == "tdsversion"@ || key == "tds version"@ || key == "protocolversion"@ || key
        == "protocol version"@ {
        match tds_version_spec(value) {
            Some(v) => Ok(
                ConfigView {
                    tds_version: v,
                    strict_mode: if v == TdsVersion::V8_0 {
                        true
                    } else {
                        c.strict_mode
                    },
                    ..c
                },
            ),
            None => Err(
                "invalid TDS version: "@ + value + ". Supported values: 7.3, 7.3A, 7.3B, 7.4, 8.0"@,
            ),
        }
    } else {
        Ok(c)
    }
}

/// Applying the pairs in order; the first failing keyword stops it.
pub open spec fn apply_pairs(c: ConfigView, ps: Seq<(Seq<char>, Seq<char>)>) -> Result<ConfigView, Seq<char>>
    decreases ps.len(),
{
    if ps.len() == 0 {
        Ok(c)
    } else {
        match apply_option_spec(c, unicode_lowercase(trim_spec(ps[0].0)), trim_spec(ps[0].1)) {
            Ok(c2) => apply_pairs(c2, ps.drop_first()),
            Err(m) => Err(m),
        }
    }
}

/// A configuration error whose message is `prefix`, `v`, `suffix`.
fn config_error(prefix: &str, v: &[char], suffix: &str) -> (r: Error)
    ensures
        r matches Error::Config(m) && m@ == prefix@ + v@ + suffix@,
{
    let mut msg = chars_of(prefix);
    push_chars(&mut msg, v);
    push_str_chars(&mut msg, suffix);
    Error::Config(string_of(msg.as_slice()))
}

/// A configuration error whose message is `prefix` followed by `v`.
fn config_error_with(prefix: &str, v: &[char]) -> (r: Error)
    ensures
        r matches Error::Config(m) && m@ == prefix@ + v@,
{
    let mut msg = chars_of(prefix);
    push_chars(&mut msg, v);
    Error::Config(string_of(msg.as_slice()))
}

/// Whether `v` starts with the literal `p`, ignoring ASCII case.
fn starts_with_ci(v: &[char], p: &str) -> (r: bool)
    ensures
        r == has_prefix_ci(v@, p@),
{
    let pc = chars_of(p);
    if v.len() < pc.len() {
        return false;
    }
    let head = slice_subrange(v, 0, pc.len());
    assert(head@ == v@.take(p@.len() as int));
    eq_ignore_ascii_case_str(head, p)
}

/// A boolean keyword's value, or the error naming the key.
fn bool_setting_of(key: &[char], value: &[char]) -> (r: Result<bool, Error>)
    ensures
        match bool_setting(key@, value@) {
            Ok(b) => r == Ok::<bool, Error>(b),
            Err(m) => r matches Err(Error::Config(m2)) && m2@ == m,
        },
{
    let k = string_of(key);
    let v = string_of(value);
    parse_conn_bool(k.as_str(), v.as_str())
}

fn apply_server_value(config: &mut Config, value: &[char]) -> (r: Result<(), Error>)
    ensures
        match apply_server(old(config)@, value@) {
            Ok(c) => r is Ok && final(config)@ == c,
            Err(m) => r matches Err(Error::Config(m2)) && m2@ == m,
        },
{
    let tcp = starts_with_ci(value, "tcp:");
    if !tcp && starts_with_ci(value, "np:") {
        return Err(Error::Config(owned(
            "Named Pipes connections (np:) are not supported. Use TCP connections instead.",
        )));
    }
    if !tcp && starts_with_ci(value, "lpc:") {
        return Err(Error::Config(owned(
            "Shared Memory connections (lpc:) are not supported. Use TCP connections instead.",
        )));
    }
    proof {
        reveal_strlit("tcp:");
    }
    let sv: &[char] = if tcp {
        slice_subrange(value, 4, value.len())
    } else {
        value
    };
    assert(sv@ == (if tcp {
        value@.skip(4)
    } else {
        value@
    }));
    proof {
        lemma_first_index_bounds(sv@, ',');
        lemma_first_index_bounds(sv@, '\\');
    }
    let sl = sv.len();
    match find_char(sv, ',') {
        Some(p) => {
            assert(first_index_of(sv@, ',') == Some(p as int));
            assert(p < sv@.len());
            let rest = slice_subrange(sv, p + 1, sl);
            assert(rest@ == sv@.skip(p + 1));
            let t = trim(rest);
            match parse_uint(t.as_slice(), 65535) {
                Some(port) => {
                    config.host = string_of(slice_subrange(sv, 0, p));
                    config.port = port as u16;
                    assert(config.host@ == sv@.take(p as int));
                    Ok(())
                },
                None => Err(config_error_with("invalid port: ", rest)),
            }
        },
        None => {
            match find_char(sv, '\\') {
                Some(p) => {
                    assert(first_index_of(sv@, '\\') == Some(p as int));
                    assert(p < sv@.len());
                    let inst = slice_subrange(sv, p + 1, sl);
                    config.host = string_of(slice_subrange(sv, 0, p));
                    config.instance = if inst.len() == 0 {
                        None
                    } else {
                        Some(string_of(inst))
                    };
                    assert(inst@ == sv@.skip(p + 1));
                    assert(config.host@ == sv@.take(p as int));
                    Ok(())
                },
                None => {
                    config.host = string_of(sv);
                    Ok(())
                },
            }
        },
    }
}

fn apply_encrypt_value(config: &mut Config, key: &[char], value: &[char]) -> (r: Result<(), Error>)
    ensures
        match apply_encrypt(old(config)@, key@, value@) {
            Ok(c) => r is Ok && final(config)@ == c,
            Err(m) => r matches Err(Error::Config(m2)) && m2@ == m,
        },
{
    if eq_ignore_ascii_case_str(value, "strict") {
        config.strict_mode = true;
        config.encrypt = true;
        config.no_tls = false;
    } else if eq_ignore_ascii_case_str(value, "mandatory") {
        config.encrypt = true;
        config.no_tls = false;
    } else if eq_ignore_ascii_case_str(value, "optional") {
        config.encrypt = false;
        config.no_tls = false;
    } else if eq_ignore_ascii_case_str(value, "no_tls") {
        config.no_tls = true;
        config.encrypt = false;
    } else {
        let enabled = match bool_setting_of(key, value) {
            Ok(b) => b,
            Err(e) => {
                return Err(e);
            },
        };
        config.encrypt = enabled;
        config.no_tls = false;
    }
    Ok(())
}

/// Keywords whose value is a boolean.
fn apply_bool_option(config: &mut Config, key: &[char], value: &[char]) -> (r: Result<(), Error>)
    requires
        is_bool_key(key@),
    ensures
        match bool_option(old(config)@, key@, value@) {
            Ok(c) => r is Ok && final(config)@ == c,
            Err(m) => r matches Err(Error::Config(m2)) && m2@ == m,
        },
{
    let b = match bool_setting_of(key, value) {
        Ok(b) => b,
        Err(e) => {
            return Err(e);
        },
    };
    if eq_str(key, "trustservercertificate") || eq_str(key, "trust server certificate") {
        config.trust_server_certificate = b;
    } else if eq_str(key, "multipleactiveresultsets") || eq_str(key, "mars") {
        config.mars = b;
    } else if eq_str(key, "multisubnetfailover") || eq_str(key, "multi subnet failover") {
        config.multi_subnet_failover = b;
    } else {
        config.send_string_parameters_as_unicode = b;
    }
    Ok(())
}

/// Keywords whose value is a number.
fn apply_number_option(config: &mut Config, key: &[char], value: &[char]) -> (r: Result<(), Error>)
    requires
        is_number_key(key@),
    ensures
        match number_option(old(config)@, key@, value@) {
            Ok(c) => r is Ok && final(config)@ == c,
            Err(m) => r matches Err(Error::Config(m2)) && m2@ == m,
        },
{
    if eq_str(key, "port") {
        match parse_uint(value, 65535) {
            Some(n) => {
                config.port = n as u16;
                Ok(())
            },
            None => Err(config_error_with("invalid port: ", value)),
        }
    } else if eq_str(key, "connect timeout") || eq_str(key, "connection timeout") || eq_str(
        key,
        "timeout",
    ) {
        match parse_uint(value, u64::MAX) {
            Some(n) => {
                config.connect_timeout = duration_from_secs(n);
                Ok(())
            },
            None => Err(config_error_with("invalid timeout: ", value)),
        }
    } else if eq_str(key, "command timeout") {
        match parse_uint(value, u64::MAX) {
            Some(n) => {
                config.command_timeout = duration_from_secs(n);
                Ok(())
            },
            None => Err(config_error_with("invalid timeout: ", value)),
        }
    } else if eq_str(key, "packet size") {
        match parse_uint(value, 65535) {
            Some(n) => {
                config.packet_size = n as u16;
                Ok(())
            },
            None => Err(config_error_with("invalid packet size: ", value)),
        }
    } else if eq_str(key, "connectretrycount") || eq_str(key, "connect retry count") {
        match parse_uint(value, 4294967295) {
            Some(n) => {
                config.retry.max_retries = n as u32;
                Ok(())
            },
            None => Err(config_error("invalid ConnectRetryCount: '", value, "'")),
        }
    } else {
        match parse_uint(value, u64::MAX) {
            Some(n) => {
                config.retry.initial_backoff = duration_from_secs(n);
                Ok(())
            },
            None => Err(config_error("invalid ConnectRetryInterval: '", value, "'")),
        }
    }
}

/// Keywords whose value is text.
fn apply_text_option(config: &mut Config, key: &[char], value: &[char])
    ensures
        final(config)@ == text_option(old(config)@, key@, value@),
{
    let text = string_of(value);
    let opt = if value.len() == 0 {
        None
    } else {
        Some(string_of(value))
    };
    if eq_str(key, "database") || eq_str(key, "initial catalog") {
        config.database = opt;
    } else if eq_str(key, "user id") || eq_str(key, "uid") || eq_str(key, "user") {
        match &config.credentials {
            Credentials::SqlServer { password, .. } => {
                let pw = string_of(chars_of(password.as_str()).as_slice());
                config.credentials = Credentials::SqlServer { username: text, password: pw };
            },
            _ => {},
        }
    } else if eq_str(key, "password") || eq_str(key, "pwd") {
        match &config.credentials {
            Credentials::SqlServer { username, .. } => {
                let user = string_of(chars_of(username.as_str()).as_slice());
                config.credentials = Credentials::SqlServer { username: user, password: text };
            },
            _ => {},
        }
    } else if eq_str(key, "application name") || eq_str(key, "app") {
        config.application_name = text;
    } else if eq_str(key, "workstation id") || eq_str(key, "wsid") {
        config.workstation_id = opt;
    } else {
        config.language = opt;
    }
}

/// Applies one keyword (trimmed and lower-cased) with its trimmed value.
fn apply_option(config: &mut Config, key: &[char], value: &[char]) -> (r: Result<(), Error>)
    ensures
        match apply_option_spec(old(config)@, key@, value@) {
            Ok(c) => r is Ok && final(config)@ == c,
            Err(m) => r matches Err(Error::Config(m2)) && m2@ == m,
        },
{
    if eq_str(key, "server") || eq_str(key, "data source") || eq_str(key, "addr") || eq_str(
        key,
        "address",
    ) || eq_str(key, "network address") || eq_str(key, "host") {
        apply_server_value(config, value)
    } else if eq_str(key, "port") || eq_str(key, "connect timeout") || eq_str(
        key,
        "connection timeout",
    ) || eq_str(key, "timeout") || eq_str(key, "command timeout") || eq_str(key, "packet size")
        || eq_str(key, "connectretrycount") || eq_str(key, "connect retry count") || eq_str(
        key,
        "connectretryinterval",
    ) || eq_str(key, "connect retry interval") {
        apply_number_option(config, key, value)
    } else if eq_str(key, "database") || eq_str(key, "initial catalog") || eq_str(key, "user id")
        || eq_str(key, "uid") || eq_str(key, "user") || eq_str(key, "password") || eq_str(
        key,
        "pwd",
    ) || eq_str(key, "application name") || eq_str(key, "app") || eq_str(key, "workstation id")
        || eq_str(key, "wsid") || eq_str(key, "current language") || eq_str(key, "language") {
        apply_text_option(config, key, value);
        Ok(())
    } else if eq_str(key, "trustservercertificate") || eq_str(key, "trust server certificate")
        || eq_str(key, "multipleactiveresultsets") || eq_str(key, "mars") || eq_str(
        key,
        "multisubnetfailover",
    ) || eq_str(key, "multi subnet failover") || eq_str(key, "sendstringparametersasunicode")
        || eq_str(key, "send string parameters as unicode") {
        apply_bool_option(config, key, value)
    } else if eq_str(key, "applicationintent") || eq_str(key, "application intent") {
        let l = lowercase_chars(value);
        if eq_str(l.as_slice(), "readonly") {
            config.application_intent = ApplicationIntent::ReadOnly;
            Ok(())
        } else if eq_str(l.as_slice(), "readwrite") {
            config.application_intent = ApplicationIntent::ReadWrite;
            Ok(())
        } else {
            Err(config_error("invalid ApplicationIntent: '", value, "' (expected ReadOnly or ReadWrite)"))
        }
    } else if eq_str(key, "encrypt") {
        apply_encrypt_value(config, key, value)
    } else if eq_str(key, "integrated security") || eq_str(key, "trusted_connection") {
        let enabled = if eq_ignore_ascii_case_str(value, "sspi") {
            true
        } else {
            match bool_setting_of(key, value) {
                Ok(b) => b,
                Err(e) => {
                    return Err(e);
                },
            }
        };
        if enabled {
            Err(Error::Config(owned(
                "Integrated Security requires the 'integrated-auth' (Linux/macOS) or 'sspi-auth' (Windows) feature to be enabled",
            )))
        } else {
            Ok(())
        }
    } else if eq_str(key, "column encryption setting") || eq_str(key, "columnencryptionsetting") {
        if eq_ignore_ascii_case_str(value, "enabled") {
            Err(Error::Config(owned(
                "Column Encryption Setting=Enabled requires the 'always-encrypted' feature. Enable it in your Cargo.toml: mssql-client = { features = [\"always-encrypted\"] }",
            )))
        } else {
            Ok(())
        }
    } else if eq_str(key, "tdsversion") || eq_str(key, "tds version") || eq_str(
        key,
        "protocolversion",
    ) || eq_str(key, "protocol version") {
        let vs = string_of(value);
        match TdsVersion::parse(vs.as_str()) {
            Some(v) => {
                config.tds_version = v;
                if v.is_tds_8() {
                    config.strict_mode = true;
                }
                Ok(())
            },
            None => Err(
                config_error(
                    "invalid TDS version: ",
                    value,
                    ". Supported values: 7.3, 7.3A, 7.3B, 7.4, 8.0",
                ),
            ),
        }
    } else {
        Ok(())
    }
}

/// What parsing a connection string gives: the pairs applied in order to
/// the default configuration.
pub open spec fn from_connection_string_spec(s: Seq<char>) -> Result<ConfigView, Seq<char>> {
    match pairs_from(s, 0) {
        Err(e) => Err(split_error_text(e)),
        Ok(ps) => apply_pairs(default_config_view(), ps),
    }
}

impl Config {
    /// The default configuration.
    pub fn new() -> (r: Self)
        ensures
            r@ == default_config_view(),
    {
        Config::default()
    }

    /// Parses an ADO.NET connection string such as
    /// `Server=localhost;Database=mydb;User Id=sa;Password="complex;pass";`.
    /// Keywords are case-insensitive; values may be quoted; a `tcp:` prefix
    /// of the server is dropped.
    pub fn from_connection_string(conn_str: &str) -> (r: Result<Self, Error>)
        ensures
            match from_connection_string_spec(conn_str@) {
                Ok(c) => r matches Ok(cfg) && cfg@ == c,
                Err(m) => r matches Err(Error::Config(m2)) && m2@ == m,
            },
    {
        let mut config = Config::default();
        let pairs = match split_connection_string(conn_str) {
            Ok(p) => p,
            Err(e) => {
                return Err(e);
            },
        };
        let ghost ps = pair_views(pairs@);
        assert(ps.skip(0) =~= ps);
        let mut i: usize = 0;
        while i < pairs.len()
            invariant
                i <= pairs@.len(),
                ps == pair_views(pairs@),
                pairs_from(conn_str@, 0) == Ok::<Seq<(Seq<char>, Seq<char>)>, SplitError>(ps),
                apply_pairs(default_config_view(), ps) == apply_pairs(config@, ps.skip(i as int)),
            decreases pairs@.len() - i,
        {
            let (key, value) = &pairs[i];
            let kc = chars_of(key.as_str());
            let kt = trim(kc.as_slice());
            let k = lowercase_chars(kt.as_slice());
            let vc = chars_of(value.as_str());
            let v = trim(vc.as_slice());
            let ghost before = config@;
            proof {
                assert(ps.skip(i as int)[0] == (key@, value@));
                assert(ps.skip(i as int).drop_first() =~= ps.skip(i + 1));
                assert(apply_pairs(before, ps.skip(i as int)) == match apply_option_spec(
                    before,
                    k@,
                    v@,
                ) {
                    Ok(c2) => apply_pairs(c2, ps.skip(i + 1)),
                    Err(m) => Err(m),
                });
            }
            match apply_option(&mut config, k.as_slice(), v.as_slice()) {
                Ok(()) => {},
                Err(e) => {
                    return Err(e);
                },
            }
            i = i + 1;
        }
        assert(ps.skip(i as int) =~= Seq::<(Seq<char>, Seq<char>)>::empty());
        Ok(config)
    }
}

impl Config {
    /// Sets the server host.
    pub fn host(self, host: &str) -> (r: Self)
        ensures
            r@ == (ConfigView { host: host@, ..self@ }),
    {
        let mut c = self;
        c.host = owned(host);
        c
    }

    /// Sets the server port.
    pub fn port(self, port: u16) -> (r: Self)
        ensures
            r@ == (ConfigView { port: port, ..self@ }),
    {
        let mut c = self;
        c.port = port;
        c
    }

    /// Sets the database.
    pub fn database(self, database: &str) -> (r: Self)
        ensures
            r@ == (ConfigView { database: Some(database@), ..self@ }),
    {
        let mut c = self;
        c.database = Some(owned(database));
        c
    }

    /// Sets the application name.
    pub fn application_name(self, name: &str) -> (r: Self)
        ensures
            r@ == (ConfigView { application_name: name@, ..self@ }),
    {
        let mut c = self;
        c.application_name = owned(name);
        c
    }

    /// Sets the connect timeout.
    pub fn connect_timeout(self, timeout: Duration) -> (r: Self)
        ensures
            r@ == (ConfigView { connect_timeout: timeout, ..self@ }),
    {
        let mut c = self;
        c.connect_timeout = timeout;
        c
    }

    /// Sets whether the server certificate is trusted without validation.
    pub fn trust_server_certificate(self, trust: bool) -> (r: Self)
        ensures
            r@ == (ConfigView { trust_server_certificate: trust, ..self@ }),
    {
        let mut c = self;
        c.trust_server_certificate = trust;
        c
    }

    /// Turns TDS 8.0 strict mode on or off; turning it on also requests TDS 8.0.
    pub fn strict_mode(self, enabled: bool) -> (r: Self)
        ensures
            r@ == (ConfigView { strict_mode: enabled, tds_version: if enabled { TdsVersion::V8_0 } else { self@.tds_version }, ..self@ }),
    {
        let mut c = self;
        c.strict_mode = enabled;
        if enabled {
            c.tds_version = TdsVersion::V8_0;
        }
        c
    }

    /// Sets the requested TDS version; TDS 8.0 also turns strict mode on.
    pub fn tds_version(self, version: TdsVersion) -> (r: Self)
        ensures
            r@ == (ConfigView { tds_version: version, strict_mode: if version == TdsVersion::V8_0 { true } else { self@.strict_mode }, ..self@ }),
    {
        let mut c = self;
        c.tds_version = version;
        if version.is_tds_8() {
            c.strict_mode = true;
        }
        c
    }

    /// Sets whether TLS is required.
    pub fn encrypt(self, enabled: bool) -> (r: Self)
        ensures
            r@ == (ConfigView { encrypt: enabled, ..self@ }),
    {
        let mut c = self;
        c.encrypt = enabled;
        c
    }

    /// Turns plaintext mode on or off; turning it on also turns `encrypt` off.
    pub fn no_tls(self, enabled: bool) -> (r: Self)
        ensures
            r@ == (ConfigView { no_tls: enabled, encrypt: if enabled { false } else { self@.encrypt }, ..self@ }),
    {
        let mut c = self;
        c.no_tls = enabled;
        if enabled {
            c.encrypt = false;
        }
        c
    }

    /// The configuration with another host (for routing).
    pub fn with_host(self, host: &str) -> (r: Self)
        ensures
            r@ == (ConfigView { host: host@, ..self@ }),
    {
        let mut c = self;
        c.host = owned(host);
        c
    }

    /// The configuration with another port (for routing).
    pub fn with_port(self, port: u16) -> (r: Self)
        ensures
            r@ == (ConfigView { port: port, ..self@ }),
    {
        let mut c = self;
        c.port = port;
        c
    }

    /// Sets the redirect handling.
    pub fn redirect(self, redirect: RedirectConfig) -> (r: Self)
        ensures
            r@ == (ConfigView { redirect: redirect, ..self@ }),
    {
        let mut c = self;
        c.redirect = redirect;
        c
    }

    /// Sets the most redirects followed.
    pub fn max_redirects(self, max: u8) -> (r: Self)
        ensures
            r@ == (ConfigView { redirect: RedirectConfig { max_redirects: max, ..self@.redirect }, ..self@ }),
    {
        let mut c = self;
        c.redirect.max_redirects = max;
        c
    }

    /// Sets the retry policy.
    pub fn retry(self, retry: RetryPolicy) -> (r: Self)
        ensures
            r@ == (ConfigView { retry: retry, ..self@ }),
    {
        let mut c = self;
        c.retry = retry;
        c
    }

    /// Sets the most retries.
    pub fn max_retries(self, max: u32) -> (r: Self)
        ensures
            r@ == (ConfigView { retry: RetryPolicy { max_retries: max, ..self@.retry }, ..self@ }),
    {
        let mut c = self;
        c.retry.max_retries = max;
        c
    }

    /// Sets the timeouts, and with them the connect and command timeouts.
    pub fn timeouts(self, timeouts: TimeoutConfig) -> (r: Self)
        ensures
            r@ == (ConfigView { connect_timeout: timeouts.connect_timeout, command_timeout: timeouts.command_timeout, timeouts: timeouts, ..self@ }),
    {
        let mut c = self;
        c.connect_timeout = timeouts.connect_timeout;
        c.command_timeout = timeouts.command_timeout;
        c.timeouts = timeouts;
        c
    }

    /// Sets the workload intent.
    pub fn application_intent(self, intent: ApplicationIntent) -> (r: Self)
        ensures
            r@ == (ConfigView { application_intent: intent, ..self@ }),
    {
        let mut c = self;
        c.application_intent = intent;
        c
    }

    /// Sets the workstation name sent at login.
    pub fn workstation_id(self, id: &str) -> (r: Self)
        ensures
            r@ == (ConfigView { workstation_id: Some(id@), ..self@ }),
    {
        let mut c = self;
        c.workstation_id = Some(owned(id));
        c
    }

    /// Sets the session language.
    pub fn language(self, lang: &str) -> (r: Self)
        ensures
            r@ == (ConfigView { language: Some(lang@), ..self@ }),
    {
        let mut c = self;
        c.language = Some(owned(lang));
        c
    }

    /// Sets whether all addresses of the host are tried in parallel.
    pub fn multi_subnet_failover(self, enabled: bool) -> (r: Self)
        ensures
            r@ == (ConfigView { multi_subnet_failover: enabled, ..self@ }),
    {
        let mut c = self;
        c.multi_subnet_failover = enabled;
        c
    }

    /// Sets whether string parameters are sent as NVARCHAR.
    pub fn send_string_parameters_as_unicode(self, enabled: bool) -> (r: Self)
        ensures
            r@ == (ConfigView { send_string_parameters_as_unicode: enabled, ..self@ }),
    {
        let mut c = self;
        c.send_string_parameters_as_unicode = enabled;
        c
    }

    /// Sets the credentials.
    pub fn credentials(self, credentials: Credentials) -> (r: Self)
        ensures
            r@ == (ConfigView { credentials: credentials_view(credentials), ..self@ }),
    {
        let mut c = self;
        c.credentials = credentials;
        c
    }
}

// ---------------------------------------------------------------------------
// Laws
// ---------------------------------------------------------------------------

/// The `tcp:` prefix of a server value is dropped: a server given with it
/// configures exactly what the same server given without it does.
pub proof fn law_tcp_prefix_is_dropped(c: ConfigView, x: Seq<char>)
    requires
        !has_prefix_ci(x, "tcp:"@),
        !has_prefix_ci(x, "np:"@),
        !has_prefix_ci(x, "lpc:"@),
    ensures
        apply_server(c, "tcp:"@ + x) == apply_server(c, x),
{
    reveal_strlit("tcp:");
    let v = "tcp:"@ + x;
    assert(v.take(4) =~= "tcp:"@);
    assert(v.skip(4) =~= x);
    assert(has_prefix_ci(v, "tcp:"@));
}

/// A value escaped for a quoted connection-string value: each occurrence
/// of the quote doubled.
pub open spec fn escape_quoted(v: Seq<char>, q: char) -> Seq<char>
    decreases v.len(),
{
    if v.len() == 0 {
        Seq::empty()
    } else if v[0] == q {
        seq![q, q] + escape_quoted(v.drop_first(), q)
    } else {
        seq![v[0]] + escape_quoted(v.drop_first(), q)
    }
}

proof fn lemma_quoted_escape(s: Seq<char>, i: int, v: Seq<char>, q: char)
    requires
        0 <= i,
        i + escape_quoted(v, q).len() < s.len(),
        s.subrange(i, i + escape_quoted(v, q).len()) == escape_quoted(v, q),
        s[i + escape_quoted(v, q).len()] == q,
        i + escape_quoted(v, q).len() + 1 < s.len() ==> s[i + escape_quoted(v, q).len() + 1] != q,
    ensures
        quoted_value(s, i, q) == Some((v, i + escape_quoted(v, q).len() + 1)),
    decreases v.len(),
{
    let e = escape_quoted(v, q);
    if v.len() == 0 {
    } else if v[0] == q {
        let rest = escape_quoted(v.drop_first(), q);
        assert(e =~= seq![q, q] + rest);
        assert(s[i] == e[0]);
        assert(s[i + 1] == e[1]);
        assert(s.subrange(i + 2, i + 2 + rest.len()) =~= rest) by {
            assert forall|k: int| 0 <= k < rest.len() implies s.subrange(i + 2, i + 2 + rest.len())[k]
                == rest[k] by {
                assert(s[i + 2 + k] == e[2 + k]);
            }
        }
        lemma_quoted_escape(s, i + 2, v.drop_first(), q);
        assert(seq![q] + v.drop_first() =~= v);
    } else {
        let rest = escape_quoted(v.drop_first(), q);
        assert(e =~= seq![v[0]] + rest);
        assert(s[i] == e[0]);
        assert(s.subrange(i + 1, i + 1 + rest.len()) =~= rest) by {
            assert forall|k: int| 0 <= k < rest.len() implies s.subrange(i + 1, i + 1 + rest.len())[k]
                == rest[k] by {
                assert(s[i + 1 + k] == e[1 + k]);
            }
        }
        lemma_quoted_escape(s, i + 1, v.drop_first(), q);
        assert(seq![v[0]] + v.drop_first() =~= v);
    }
}

/// A value in double or single quotes, with its quote doubled inside, is
/// read back exactly, `;` and `=` included: the pair `key="value"` splits
/// into the trimmed key and the value.
pub proof fn law_quoted_value_roundtrip(key: Seq<char>, value: Seq<char>, q: char)
    requires
        q == '"' || q == '\'',
        forall|k: int| 0 <= k < key.len() ==> key[k] != '=' && key[k] != ';',
        key.len() > 0,
        !is_ws(key[0]),
    ensures
        trim_spec(key).len() > 0,
        pairs_from(key + seq!['='] + seq![q] + escape_quoted(value, q) + seq![q], 0) == Ok::<
            Seq<(Seq<char>, Seq<char>)>,
            SplitError,
        >(seq![(trim_spec(key), value)]),
{
    let e = escape_quoted(value, q);
    let s = key + seq!['='] + seq![q] + e + seq![q];
    let n = key.len() as int;
    assert(!is_pair_gap(s[0]));
    assert(skip_gaps(s, 0) == 0);
    assert forall|k: int| 0 <= k < n implies s[k] != '=' by {
        assert(s[k] == key[k]);
    }
    lemma_find_eq_skip(s, 0, n);
    assert(find_from(s, 0, '=') == n);
    assert(s.subrange(0, n) =~= key);
    assert(!is_ws(s[n + 1]));
    assert(skip_ws_from(s, n + 1) == n + 1);
    assert(s.subrange(n + 2, n + 2 + e.len()) =~= e);
    lemma_quoted_escape(s, n + 2, value, q);
    let end = n + 2 + e.len() + 1;
    assert(end == s.len());
    assert(value_at(s, n + 1) == Some((value, end)));
    assert(pairs_from(s, end) == Ok::<Seq<(Seq<char>, Seq<char>)>, SplitError>(Seq::empty()));
    lemma_trim_nonempty(key);
    assert(seq![(trim_spec(key), value)] + Seq::<(Seq<char>, Seq<char>)>::empty() =~= seq![
        (trim_spec(key), value),
    ]);
}

proof fn lemma_find_eq_skip(s: Seq<char>, i: int, n: int)
    requires
        0 <= i <= n < s.len(),
        s[n] == '=',
        forall|k: int| i <= k < n ==> s[k] != '=',
    ensures
        find_from(s, i, '=') == n,
    decreases n - i,
{
    if i < n {
        lemma_find_eq_skip(s, i + 1, n);
    }
}

proof fn lemma_trim_nonempty(s: Seq<char>)
    requires
        s.len() > 0,
        !is_ws(s[0]),
    ensures
        trim_spec(s).len() > 0,
{
    assert(crate::text::trim_start_spec(s) == s);
    lemma_trim_end_keeps_first(s);
}

proof fn lemma_trim_end_keeps_first(s: Seq<char>)
    requires
        s.len() > 0,
        !is_ws(s[0]),
    ensures
        crate::text::trim_end_spec(s).len() > 0,
    decreases s.len(),
{
    if s.len() > 1 && is_ws(s.last()) {
        lemma_trim_end_keeps_first(s.drop_last());
    }
}



/// The database named by a value: none when the value is empty.
pub open spec fn named(v: Seq<char>) -> Option<Seq<char>> {
    if v.len() == 0 {
        None
    } else {
        Some(v)
    }
}

proof fn lemma_text_key(c: ConfigView, k: Seq<char>, v: Seq<char>)
    requires
        !is_server_key(k),
        !is_number_key(k),
        is_text_key(k),
    ensures
        apply_option_spec(c, k, v) == Ok::<ConfigView, Seq<char>>(text_option(c, k, v)),
{
}

/// `Initial Catalog` is another name for `Database`: both set the
/// configured database to the value (none for an empty value) and change
/// nothing else; likewise `Current Language` and `Language` set the
/// language, `Wsid` and `Workstation Id` the workstation, and `App` and
/// `Application Name` the application name.
pub proof fn law_text_keyword_aliases(c: ConfigView, v: Seq<char>)
    ensures
        apply_option_spec(c, "initial catalog"@, v) == apply_option_spec(c, "database"@, v),
        apply_option_spec(c, "database"@, v) == Ok::<ConfigView, Seq<char>>(
            ConfigView { database: named(v), ..c },
        ),
        apply_option_spec(c, "current language"@, v) == apply_option_spec(c, "language"@, v),
        apply_option_spec(c, "language"@, v) == Ok::<ConfigView, Seq<char>>(
            ConfigView { language: named(v), ..c },
        ),
        apply_option_spec(c, "wsid"@, v) == apply_option_spec(c, "workstation id"@, v),
        apply_option_spec(c, "workstation id"@, v) == Ok::<ConfigView, Seq<char>>(
            ConfigView { workstation_id: named(v), ..c },
        ),
        apply_option_spec(c, "app"@, v) == apply_option_spec(c, "application name"@, v),
        apply_option_spec(c, "application name"@, v) == Ok::<ConfigView, Seq<char>>(
            ConfigView { application_name: v, ..c },
        ),
        apply_option_spec(c, "uid"@, v) == apply_option_spec(c, "user id"@, v),
        apply_option_spec(c, "user"@, v) == apply_option_spec(c, "user id"@, v),
        apply_option_spec(c, "pwd"@, v) == apply_option_spec(c, "password"@, v),
{
    reveal_strlit("server");
    reveal_strlit("data source");
    reveal_strlit("addr");
    reveal_strlit("address");
    reveal_strlit("network address");
    reveal_strlit("host");
    reveal_strlit("port");
    reveal_strlit("connect timeout");
    reveal_strlit("connection timeout");
    reveal_strlit("timeout");
    reveal_strlit("command timeout");
    reveal_strlit("packet size");
    reveal_strlit("connectretrycount");
    reveal_strlit("connect retry count");
    reveal_strlit("connectretryinterval");
    reveal_strlit("connect retry interval");
    reveal_strlit("database");
    reveal_strlit("initial catalog");
    reveal_strlit("user id");
    reveal_strlit("uid");
    reveal_strlit("user");
    reveal_strlit("password");
    reveal_strlit("pwd");
    reveal_strlit("application name");
    reveal_strlit("app");
    reveal_strlit("workstation id");
    reveal_strlit("wsid");
    reveal_strlit("current language");
    reveal_strlit("language");
    assert("database"@.len() != "initial catalog"@.len());
    assert("database"@.len() != "user id"@.len());
    assert("database"@.len() != "uid"@.len());
    assert("database"@.len() != "user"@.len());
    assert("database"@[0] != "password"@[0]);
    assert("database"@.len() != "pwd"@.len());
    assert("database"@.len() != "application name"@.len());
    assert("database"@.len() != "app"@.len());
    assert("database"@.len() != "workstation id"@.len());
    assert("database"@.len() != "wsid"@.len());
    assert("database"@.len() != "current language"@.len());
    assert("database"@[0] != "language"@[0]);
    assert("initial catalog"@.len() != "database"@.len());
    assert("initial catalog"@.len() != "user id"@.len());
    assert("initial catalog"@.len() != "uid"@.len());
    assert("initial catalog"@.len() != "user"@.len());
    assert("initial catalog"@.len() != "password"@.len());
    assert("initial catalog"@.len() != "pwd"@.len());
    assert("initial catalog"@.len() != "application name"@.len());
    assert("initial catalog"@.len() != "app"@.len());
    assert("initial catalog"@.len() != "workstation id"@.len());
    assert("initial catalog"@.len() != "wsid"@.len());
    assert("initial catalog"@.len() != "current language"@.len());
    assert("initial catalog"@.len() != "language"@.len());
    assert("user id"@.len() != "database"@.len());
    assert("user id"@.len() != "initial catalog"@.len());
    assert("user id"@.len() != "uid"@.len());
    assert("user id"@.len() != "user"@.len());
    assert("user id"@.len() != "password"@.len());
    assert("user id"@.len() != "pwd"@.len());
    assert("user id"@.len() != "application name"@.len());
    assert("user id"@.len() != "app"@.len());
    assert("user id"@.len() != "workstation id"@.len());
    assert("user id"@.len() != "wsid"@.len());
    assert("user id"@.len() != "current language"@.len());
    assert("user id"@.len() != "language"@.len());
    assert("uid"@.len() != "database"@.len());
    assert("uid"@.len() != "initial catalog"@.len());
    assert("uid"@.len() != "user id"@.len());
    assert("uid"@.len() != "user"@.len());
    assert("uid"@.len() != "password"@.len());
    assert("uid"@[0] != "pwd"@[0]);
    assert("uid"@.len() != "application name"@.len());
    assert("uid"@[0] != "app"@[0]);
    assert("uid"@.len() != "workstation id"@.len());
    assert("uid"@.len() != "wsid"@.len());
    assert("uid"@.len() != "current language"@.len());
    assert("uid"@.len() != "language"@.len());
    assert("user"@.len() != "database"@.len());
    assert("user"@.len() != "initial catalog"@.len());
    assert("user"@.len() != "user id"@.len());
    assert("user"@.len() != "uid"@.len());
    assert("user"@.len() != "password"@.len());
    assert("user"@.len() != "pwd"@.len());
    assert("user"@.len() != "application name"@.len());
    assert("user"@.len() != "app"@.len());
    assert("user"@.len() != "workstation id"@.len());
    assert("user"@[0] != "wsid"@[0]);
    assert("user"@.len() != "current language"@.len());
    assert("user"@.len() != "language"@.len());
    assert("password"@[0] != "database"@[0]);
    assert("password"@.len() != "initial catalog"@.len());
    assert("password"@.len() != "user id"@.len());
    assert("password"@.len() != "uid"@.len());
    assert("password"@.len() != "user"@.len());
    assert("password"@.len() != "pwd"@.len());
    assert("password"@.len() != "application name"@.len());
    assert("password"@.len() != "app"@.len());
    assert("password"@.len() != "workstation id"@.len());
    assert("password"@.len() != "wsid"@.len());
    assert("password"@.len() != "current language"@.len());
    assert("password"@[0] != "language"@[0]);
    assert("pwd"@.len() != "database"@.len());
    assert("pwd"@.len() != "initial catalog"@.len());
    assert("pwd"@.len() != "user id"@.len());
    assert("pwd"@[0] != "uid"@[0]);
    assert("pwd"@.len() != "user"@.len());
    assert("pwd"@.len() != "password"@.len());
    assert("pwd"@.len() != "application name"@.len());
    assert("pwd"@[0] != "app"@[0]);
    assert("pwd"@.len() != "workstation id"@.len());
    assert("pwd"@.len() != "wsid"@.len());
    assert("pwd"@.len() != "current language"@.len());
    assert("pwd"@.len() != "language"@.len());
    assert("application name"@.len() != "database"@.len());
    assert("application name"@.len() != "initial catalog"@.len());
    assert("application name"@.len() != "user id"@.len());
    assert("application name"@.len() != "uid"@.len());
    assert("application name"@.len() != "user"@.len());
    assert("application name"@.len() != "password"@.len());
    assert("application name"@.len() != "pwd"@.len());
    assert("application name"@.len() != "app"@.len());
    assert("application name"@.len() != "workstation id"@.len());
    assert("application name"@.len() != "wsid"@.len());
    assert("application name"@[0] != "current language"@[0]);
    assert("application name"@.len() != "language"@.len());
    assert("app"@.len() != "database"@.len());
    assert("app"@.len() != "initial catalog"@.len());
    assert("app"@.len() != "user id"@.len());
    assert("app"@[0] != "uid"@[0]);
    assert("app"@.len() != "user"@.len());
    assert("app"@.len() != "password"@.len());
    assert("app"@[0] != "pwd"@[0]);
    assert("app"@.len() != "application name"@.len());
    assert("app"@.len() != "workstation id"@.len());
    assert("app"@.len() != "wsid"@.len());
    assert("app"@.len() != "current language"@.len());
    assert("app"@.len() != "language"@.len());
    assert("workstation id"@.len() != "database"@.len());
    assert("workstation id"@.len() != "initial catalog"@.len());
    assert("workstation id"@.len() != "user id"@.len());
    assert("workstation id"@.len() != "uid"@.len());
    assert("workstation id"@.len() != "user"@.len());
    assert("workstation id"@.len() != "password"@.len());
    assert("workstation id"@.len() != "pwd"@.len());
    assert("workstation id"@.len() != "application name"@.len());
    assert("workstation id"@.len() != "app"@.len());
    assert("workstation id"@.len() != "wsid"@.len());
    assert("workstation id"@.len() != "current language"@.len());
    assert("workstation id"@.len() != "language"@.len());
    assert("wsid"@.len() != "database"@.len());
    assert("wsid"@.len() != "initial catalog"@.len());
    assert("wsid"@.len() != "user id"@.len());
    assert("wsid"@.len() != "uid"@.len());
    assert("wsid"@[0] != "user"@[0]);
    assert("wsid"@.len() != "password"@.len());
    assert("wsid"@.len() != "pwd"@.len());
    assert("wsid"@.len() != "application name"@.len());
    assert("wsid"@.len() != "app"@.len());
    assert("wsid"@.len() != "workstation id"@.len());
    assert("wsid"@.len() != "current language"@.len());
    assert("wsid"@.len() != "language"@.len());
    assert("current language"@.len() != "database"@.len());
    assert("current language"@.len() != "initial catalog"@.len());
    assert("current language"@.len() != "user id"@.len());
    assert("current language"@.len() != "uid"@.len());
    assert("current language"@.len() != "user"@.len());
    assert("current language"@.len() != "password"@.len());
    assert("current language"@.len() != "pwd"@.len());
    assert("current language"@[0] != "application name"@[0]);
    assert("current language"@.len() != "app"@.len());
    assert("current language"@.len() != "workstation id"@.len());
    assert("current language"@.len() != "wsid"@.len());
    assert("current language"@.len() != "language"@.len());
    assert("language"@[0] != "database"@[0]);
    assert("language"@.len() != "initial catalog"@.len());
    assert("language"@.len() != "user id"@.len());
    assert("language"@.len() != "uid"@.len());
    assert("language"@.len() != "user"@.len());
    assert("language"@[0] != "password"@[0]);
    assert("language"@.len() != "pwd"@.len());
    assert("language"@.len() != "application name"@.len());
    assert("language"@.len() != "app"@.len());
    assert("language"@.len() != "workstation id"@.len());
    assert("language"@.len() != "wsid"@.len());
    assert("language"@.len() != "current language"@.len());
    assert("initial catalog"@.len() != "server"@.len());
    assert("initial catalog"@.len() != "data source"@.len());
    assert("initial catalog"@.len() != "addr"@.len());
    assert("initial catalog"@.len() != "address"@.len());
    assert("initial catalog"@[0] != "network address"@[0]);
    assert("initial catalog"@.len() != "host"@.len());
    assert("initial catalog"@.len() != "port"@.len());
    assert("initial catalog"@[0] != "connect timeout"@[0]);
    assert("initial catalog"@.len() != "connection timeout"@.len());
    assert("initial catalog"@.len() != "timeout"@.len());
    assert("initial catalog"@[0] != "command timeout"@[0]);
    assert("initial catalog"@.len() != "packet size"@.len());
    assert("initial catalog"@.len() != "connectretrycount"@.len());
    assert("initial catalog"@.len() != "connect retry count"@.len());
    assert("initial catalog"@.len() != "connectretryinterval"@.len());
    assert("initial catalog"@.len() != "connect retry interval"@.len());
    assert(!is_server_key("initial catalog"@));
    assert(!is_number_key("initial catalog"@));
    assert(is_text_key("initial catalog"@));
    lemma_text_key(c, "initial catalog"@, v);
    assert("database"@.len() != "server"@.len());
    assert("database"@.len() != "data source"@.len());
    assert("database"@.len() != "addr"@.len());
    assert("database"@.len() != "address"@.len());
    assert("database"@.len() != "network address"@.len());
    assert("database"@.len() != "host"@.len());
    assert("database"@.len() != "port"@.len());
    assert("database"@.len() != "connect timeout"@.len());
    assert("database"@.len() != "connection timeout"@.len());
    assert("database"@.len() != "timeout"@.len());
    assert("database"@.len() != "command timeout"@.len());
    assert("database"@.len() != "packet size"@.len());
    assert("database"@.len() != "connectretrycount"@.len());
    assert("database"@.len() != "connect retry count"@.len());
    assert("database"@.len() != "connectretryinterval"@.len());
    assert("database"@.len() != "connect retry interval"@.len());
    assert(!is_server_key("database"@));
    assert(!is_number_key("database"@));
    assert(is_text_key("database"@));
    lemma_text_key(c, "database"@, v);
    assert("current language"@.len() != "server"@.len());
    assert("current language"@.len() != "data source"@.len());
    assert("current language"@.len() != "addr"@.len());
    assert("current language"@.len() != "address"@.len());
    assert("current language"@.len() != "network address"@.len());
    assert("current language"@.len() != "host"@.len());
    assert("current language"@.len() != "port"@.len());
    assert("current language"@.len() != "connect timeout"@.len());
    assert("current language"@.len() != "connection timeout"@.len());
    assert("current language"@.len() != "timeout"@.len());
    assert("current language"@.len() != "command timeout"@.len());
    assert("current language"@.len() != "packet size"@.len());
    assert("current language"@.len() != "connectretrycount"@.len());
    assert("current language"@.len() != "connect retry count"@.len());
    assert("current language"@.len() != "connectretryinterval"@.len());
    assert("current language"@.len() != "connect retry interval"@.len());
    assert(!is_server_key("current language"@));
    assert(!is_number_key("current language"@));
    assert(is_text_key("current language"@));
    lemma_text_key(c, "current language"@, v);
    assert("language"@.len() != "server"@.len());
    assert("language"@.len() != "data source"@.len());
    assert("language"@.len() != "addr"@.len());
    assert("language"@.len() != "address"@.len());
    assert("language"@.len() != "network address"@.len());
    assert("language"@.len() != "host"@.len());
    assert("language"@.len() != "port"@.len());
    assert("language"@.len() != "connect timeout"@.len());
    assert("language"@.len() != "connection timeout"@.len());
    assert("language"@.len() != "timeout"@.len());
    assert("language"@.len() != "command timeout"@.len());
    assert("language"@.len() != "packet size"@.len());
    assert("language"@.len() != "connectretrycount"@.len());
    assert("language"@.len() != "connect retry count"@.len());
    assert("language"@.len() != "connectretryinterval"@.len());
    assert("language"@.len() != "connect retry interval"@.len());
    assert(!is_server_key("language"@));
    assert(!is_number_key("language"@));
    assert(is_text_key("language"@));
    lemma_text_key(c, "language"@, v);
    assert("wsid"@.len() != "server"@.len());
    assert("wsid"@.len() != "data source"@.len());
    assert("wsid"@[0] != "addr"@[0]);
    assert("wsid"@.len() != "address"@.len());
    assert("wsid"@.len() != "network address"@.len());
    assert("wsid"@[0] != "host"@[0]);
    assert("wsid"@[0] != "port"@[0]);
    assert("wsid"@.len() != "connect timeout"@.len());
    assert("wsid"@.len() != "connection timeout"@.len());
    assert("wsid"@.len() != "timeout"@.len());
    assert("wsid"@.len() != "command timeout"@.len());
    assert("wsid"@.len() != "packet size"@.len());
    assert("wsid"@.len() != "connectretrycount"@.len());
    assert("wsid"@.len() != "connect retry count"@.len());
    assert("wsid"@.len() != "connectretryinterval"@.len());
    assert("wsid"@.len() != "connect retry interval"@.len());
    assert(!is_server_key("wsid"@));
    assert(!is_number_key("wsid"@));
    assert(is_text_key("wsid"@));
    lemma_text_key(c, "wsid"@, v);
    assert("workstation id"@.len() != "server"@.len());
    assert("workstation id"@.len() != "data source"@.len());
    assert("workstation id"@.len() != "addr"@.len());
    assert("workstation id"@.len() != "address"@.len());
    assert("workstation id"@.len() != "network address"@.len());
    assert("workstation id"@.len() != "host"@.len());
    assert("workstation id"@.len() != "port"@.len());
    assert("workstation id"@.len() != "connect timeout"@.len());
    assert("workstation id"@.len() != "connection timeout"@.len());
    assert("workstation id"@.len() != "timeout"@.len());
    assert("workstation id"@.len() != "command timeout"@.len());
    assert("workstation id"@.len() != "packet size"@.len());
    assert("workstation id"@.len() != "connectretrycount"@.len());
    assert("workstation id"@.len() != "connect retry count"@.len());
    assert("workstation id"@.len() != "connectretryinterval"@.len());
    assert("workstation id"@.len() != "connect retry interval"@.len());
    assert(!is_server_key("workstation id"@));
    assert(!is_number_key("workstation id"@));
    assert(is_text_key("workstation id"@));
    lemma_text_key(c, "workstation id"@, v);
    assert("app"@.len() != "server"@.len());
    assert("app"@.len() != "data source"@.len());
    assert("app"@.len() != "addr"@.len());
    assert("app"@.len() != "address"@.len());
    assert("app"@.len() != "network address"@.len());
    assert("app"@.len() != "host"@.len());
    assert("app"@.len() != "port"@.len());
    assert("app"@.len() != "connect timeout"@.len());
    assert("app"@.len() != "connection timeout"@.len());
    assert("app"@.len() != "timeout"@.len());
    assert("app"@.len() != "command timeout"@.len());
    assert("app"@.len() != "packet size"@.len());
    assert("app"@.len() != "connectretrycount"@.len());
    assert("app"@.len() != "connect retry count"@.len());
    assert("app"@.len() != "connectretryinterval"@.len());
    assert("app"@.len() != "connect retry interval"@.len());
    assert(!is_server_key("app"@));
    assert(!is_number_key("app"@));
    assert(is_text_key("app"@));
    lemma_text_key(c, "app"@, v);
    assert("application name"@.len() != "server"@.len());
    assert("application name"@.len() != "data source"@.len());
    assert("application name"@.len() != "addr"@.len());
    assert("application name"@.len() != "address"@.len());
    assert("application name"@.len() != "network address"@.len());
    assert("application name"@.len() != "host"@.len());
    assert("application name"@.len() != "port"@.len());
    assert("application name"@.len() != "connect timeout"@.len());
    assert("application name"@.len() != "connection timeout"@.len());
    assert("application name"@.len() != "timeout"@.len());
    assert("application name"@.len() != "command timeout"@.len());
    assert("application name"@.len() != "packet size"@.len());
    assert("application name"@.len() != "connectretrycount"@.len());
    assert("application name"@.len() != "connect retry count"@.len());
    assert("application name"@.len() != "connectretryinterval"@.len());
    assert("application name"@.len() != "connect retry interval"@.len());
    assert(!is_server_key("application name"@));
    assert(!is_number_key("application name"@));
    assert(is_text_key("application name"@));
    lemma_text_key(c, "application name"@, v);
    assert("uid"@.len() != "server"@.len());
    assert("uid"@.len() != "data source"@.len());
    assert("uid"@.len() != "addr"@.len());
    assert("uid"@.len() != "address"@.len());
    assert("uid"@.len() != "network address"@.len());
    assert("uid"@.len() != "host"@.len());
    assert("uid"@.len() != "port"@.len());
    assert("uid"@.len() != "connect timeout"@.len());
    assert("uid"@.len() != "connection timeout"@.len());
    assert("uid"@.len() != "timeout"@.len());
    assert("uid"@.len() != "command timeout"@.len());
    assert("uid"@.len() != "packet size"@.len());
    assert("uid"@.len() != "connectretrycount"@.len());
    assert("uid"@.len() != "connect retry count"@.len());
    assert("uid"@.len() != "connectretryinterval"@.len());
    assert("uid"@.len() != "connect retry interval"@.len());
    assert(!is_server_key("uid"@));
    assert(!is_number_key("uid"@));
    assert(is_text_key("uid"@));
    lemma_text_key(c, "uid"@, v);
    assert("user id"@.len() != "server"@.len());
    assert("user id"@.len() != "data source"@.len());
    assert("user id"@.len() != "addr"@.len());
    assert("user id"@[0] != "address"@[0]);
    assert("user id"@.len() != "network address"@.len());
    assert("user id"@.len() != "host"@.len());
    assert("user id"@.len() != "port"@.len());
    assert("user id"@.len() != "connect timeout"@.len());
    assert("user id"@.len() != "connection timeout"@.len());
    assert("user id"@[0] != "timeout"@[0]);
    assert("user id"@.len() != "command timeout"@.len());
    assert("user id"@.len() != "packet size"@.len());
    assert("user id"@.len() != "connectretrycount"@.len());
    assert("user id"@.len() != "connect retry count"@.len());
    assert("user id"@.len() != "connectretryinterval"@.len());
    assert("user id"@.len() != "connect retry interval"@.len());
    assert(!is_server_key("user id"@));
    assert(!is_number_key("user id"@));
    assert(is_text_key("user id"@));
    lemma_text_key(c, "user id"@, v);
    assert("user"@.len() != "server"@.len());
    assert("user"@.len() != "data source"@.len());
    assert("user"@[0] != "addr"@[0]);
    assert("user"@.len() != "address"@.len());
    assert("user"@.len() != "network address"@.len());
    assert("user"@[0] != "host"@[0]);
    assert("user"@[0] != "port"@[0]);
    assert("user"@.len() != "connect timeout"@.len());
    assert("user"@.len() != "connection timeout"@.len());
    assert("user"@.len() != "timeout"@.len());
    assert("user"@.len() != "command timeout"@.len());
    assert("user"@.len() != "packet size"@.len());
    assert("user"@.len() != "connectretrycount"@.len());
    assert("user"@.len() != "connect retry count"@.len());
    assert("user"@.len() != "connectretryinterval"@.len());
    assert("user"@.len() != "connect retry interval"@.len());
    assert(!is_server_key("user"@));
    assert(!is_number_key("user"@));
    assert(is_text_key("user"@));
    lemma_text_key(c, "user"@, v);
    assert("pwd"@.len() != "server"@.len());
    assert("pwd"@.len() != "data source"@.len());
    assert("pwd"@.len() != "addr"@.len());
    assert("pwd"@.len() != "address"@.len());
    assert("pwd"@.len() != "network address"@.len());
    assert("pwd"@.len() != "host"@.len());
    assert("pwd"@.len() != "port"@.len());
    assert("pwd"@.len() != "connect timeout"@.len());
    assert("pwd"@.len() != "connection timeout"@.len());
    assert("pwd"@.len() != "timeout"@.len());
    assert("pwd"@.len() != "command timeout"@.len());
    assert("pwd"@.len() != "packet size"@.len());
    assert("pwd"@.len() != "connectretrycount"@.len());
    assert("pwd"@.len() != "connect retry count"@.len());
    assert("pwd"@.len() != "connectretryinterval"@.len());
    assert("pwd"@.len() != "connect retry interval"@.len());
    assert(!is_server_key("pwd"@));
    assert(!is_number_key("pwd"@));
    assert(is_text_key("pwd"@));
    lemma_text_key(c, "pwd"@, v);
    assert("password"@.len() != "server"@.len());
    assert("password"@.len() != "data source"@.len());
    assert("password"@.len() != "addr"@.len());
    assert("password"@.len() != "address"@.len());
    assert("password"@.len() != "network address"@.len());
    assert("password"@.len() != "host"@.len());
    assert("password"@.len() != "port"@.len());
    assert("password"@.len() != "connect timeout"@.len());
    assert("password"@.len() != "connection timeout"@.len());
    assert("password"@.len() != "timeout"@.len());
    assert("password"@.len() != "command timeout"@.len());
    assert("password"@.len() != "packet size"@.len());
    assert("password"@.len() != "connectretrycount"@.len());
    assert("password"@.len() != "connect retry count"@.len());
    assert("password"@.len() != "connectretryinterval"@.len());
    assert("password"@.len() != "connect retry interval"@.len());
    assert(!is_server_key("password"@));
    assert(!is_number_key("password"@));
    assert(is_text_key("password"@));
    lemma_text_key(c, "password"@, v);
}

/// In a list of keyword-value pairs, a keyword that reads `initial catalog`
/// (trimmed, in any case) can be replaced by one that reads `database`
/// without changing the configuration or the error that results.
pub proof fn law_initial_catalog_pairs(
    c: ConfigView,
    ps: Seq<(Seq<char>, Seq<char>)>,
    j: int,
    database_key: Seq<char>,
)
    requires
        0 <= j < ps.len(),
        unicode_lowercase(trim_spec(ps[j].0)) == "initial catalog"@,
        unicode_lowercase(trim_spec(database_key)) == "database"@,
    ensures
        apply_pairs(c, ps) == apply_pairs(c, ps.update(j, (database_key, ps[j].1))),
    decreases j,
{
    let qs = ps.update(j, (database_key, ps[j].1));
    if j == 0 {
        law_text_keyword_aliases(c, trim_spec(ps[0].1));
        assert(qs.drop_first() =~= ps.drop_first());
    } else {
        assert(qs[0] == ps[0]);
        assert(qs.drop_first() =~= ps.drop_first().update(j - 1, (database_key, ps[j].1)));
        match apply_option_spec(c, unicode_lowercase(trim_spec(ps[0].0)), trim_spec(ps[0].1)) {
            Ok(c2) => {
                law_initial_catalog_pairs(c2, ps.drop_first(), j - 1, database_key);
            },
            Err(_) => {},
        }
    }
}


/// `Connection Timeout` and `Timeout` are other names for `Connect
/// Timeout`, `Connect Retry Count` for `ConnectRetryCount` and `Connect
/// Retry Interval` for `ConnectRetryInterval`: each pair does the same to
/// every configuration, value and error.  `Port` sets the port to the
/// value read as a number up to 65535.
pub proof fn law_number_keyword_aliases(c: ConfigView, v: Seq<char>)
    ensures
        apply_option_spec(c, "connection timeout"@, v) == apply_option_spec(c, "connect timeout"@, v),
        apply_option_spec(c, "timeout"@, v) == apply_option_spec(c, "connect timeout"@, v),
        apply_option_spec(c, "connect retry count"@, v) == apply_option_spec(c, "connectretrycount"@, v),
        apply_option_spec(c, "connect retry interval"@, v) == apply_option_spec(
            c,
            "connectretryinterval"@,
            v,
        ),
        parse_uint_spec(v, 65535) matches Some(n) ==> apply_option_spec(c, "port"@, v) == Ok::<
            ConfigView,
            Seq<char>,
        >(ConfigView { port: n as u16, ..c }),
        parse_uint_spec(v, 65535) is None ==> apply_option_spec(c, "port"@, v) is Err,
{
    reveal_strlit("server");
    reveal_strlit("data source");
    reveal_strlit("addr");
    reveal_strlit("address");
    reveal_strlit("network address");
    reveal_strlit("host");
    reveal_strlit("port");
    reveal_strlit("connect timeout");
    reveal_strlit("connection timeout");
    reveal_strlit("timeout");
    reveal_strlit("command timeout");
    reveal_strlit("packet size");
    reveal_strlit("connectretrycount");
    reveal_strlit("connect retry count");
    reveal_strlit("connectretryinterval");
    reveal_strlit("connect retry interval");
    assert("port"@.len() != "server"@.len());
    assert("port"@.len() != "data source"@.len());
    assert("port"@[0] != "addr"@[0]);
    assert("port"@.len() != "address"@.len());
    assert("port"@.len() != "network address"@.len());
    assert("port"@[0] != "host"@[0]);
    assert("port"@.len() != "connect timeout"@.len());
    assert("port"@.len() != "connection timeout"@.len());
    assert("port"@.len() != "timeout"@.len());
    assert("port"@.len() != "command timeout"@.len());
    assert("port"@.len() != "packet size"@.len());
    assert("port"@.len() != "connectretrycount"@.len());
    assert("port"@.len() != "connect retry count"@.len());
    assert("port"@.len() != "connectretryinterval"@.len());
    assert("port"@.len() != "connect retry interval"@.len());
    assert(!is_server_key("port"@));
    assert(is_number_key("port"@));
    assert("connect timeout"@.len() != "server"@.len());
    assert("connect timeout"@.len() != "data source"@.len());
    assert("connect timeout"@.len() != "addr"@.len());
    assert("connect timeout"@.len() != "address"@.len());
    assert("connect timeout"@[0] != "network address"@[0]);
    assert("connect timeout"@.len() != "host"@.len());
    assert("connect timeout"@.len() != "port"@.len());
    assert("connect timeout"@.len() != "connection timeout"@.len());
    assert("connect timeout"@.len() != "timeout"@.len());
    assert("connect timeout"@[2] != "command timeout"@[2]);
    assert("connect timeout"@.len() != "packet size"@.len());
    assert("connect timeout"@.len() != "connectretrycount"@.len());
    assert("connect timeout"@.len() != "connect retry count"@.len());
    assert("connect timeout"@.len() != "connectretryinterval"@.len());
    assert("connect timeout"@.len() != "connect retry interval"@.len());
    assert(!is_server_key("connect timeout"@));
    assert(is_number_key("connect timeout"@));
    assert("connection timeout"@.len() != "server"@.len());
    assert("connection timeout"@.len() != "data source"@.len());
    assert("connection timeout"@.len() != "addr"@.len());
    assert("connection timeout"@.len() != "address"@.len());
    assert("connection timeout"@.len() != "network address"@.len());
    assert("connection timeout"@.len() != "host"@.len());
    assert("connection timeout"@.len() != "port"@.len());
    assert("connection timeout"@.len() != "connect timeout"@.len());
    assert("connection timeout"@.len() != "timeout"@.len());
    assert("connection timeout"@.len() != "command timeout"@.len());
    assert("connection timeout"@.len() != "packet size"@.len());
    assert("connection timeout"@.len() != "connectretrycount"@.len());
    assert("connection timeout"@.len() != "connect retry count"@.len());
    assert("connection timeout"@.len() != "connectretryinterval"@.len());
    assert("connection timeout"@.len() != "connect retry interval"@.len());
    assert(!is_server_key("connection timeout"@));
    assert(is_number_key("connection timeout"@));
    assert("timeout"@.len() != "server"@.len());
    assert("timeout"@.len() != "data source"@.len());
    assert("timeout"@.len() != "addr"@.len());
    assert("timeout"@[0] != "address"@[0]);
    assert("timeout"@.len() != "network address"@.len());
    assert("timeout"@.len() != "host"@.len());
    assert("timeout"@.len() != "port"@.len());
    assert("timeout"@.len() != "connect timeout"@.len());
    assert("timeout"@.len() != "connection timeout"@.len());
    assert("timeout"@.len() != "command timeout"@.len());
    assert("timeout"@.len() != "packet size"@.len());
    assert("timeout"@.len() != "connectretrycount"@.len());
    assert("timeout"@.len() != "connect retry count"@.len());
    assert("timeout"@.len() != "connectretryinterval"@.len());
    assert("timeout"@.len() != "connect retry interval"@.len());
    assert(!is_server_key("timeout"@));
    assert(is_number_key("timeout"@));
    assert("command timeout"@.len() != "server"@.len());
    assert("command timeout"@.len() != "data source"@.len());
    assert("command timeout"@.len() != "addr"@.len());
    assert("command timeout"@.len() != "address"@.len());
    assert("command timeout"@[0] != "network address"@[0]);
    assert("command timeout"@.len() != "host"@.len());
    assert("command timeout"@.len() != "port"@.len());
    assert("command timeout"@[2] != "connect timeout"@[2]);
    assert("command timeout"@.len() != "connection timeout"@.len());
    assert("command timeout"@.len() != "timeout"@.len());
    assert("command timeout"@.len() != "packet size"@.len());
    assert("command timeout"@.len() != "connectretrycount"@.len());
    assert("command timeout"@.len() != "connect retry count"@.len());
    assert("command timeout"@.len() != "connectretryinterval"@.len());
    assert("command timeout"@.len() != "connect retry interval"@.len());
    assert(!is_server_key("command timeout"@));
    assert(is_number_key("command timeout"@));
    assert("packet size"@.len() != "server"@.len());
    assert("packet size"@[0] != "data source"@[0]);
    assert("packet size"@.len() != "addr"@.len());
    assert("packet size"@.len() != "address"@.len());
    assert("packet size"@.len() != "network address"@.len());
    assert("packet size"@.len() != "host"@.len());
    assert("packet size"@.len() != "port"@.len());
    assert("packet size"@.len() != "connect timeout"@.len());
    assert("packet size"@.len() != "connection timeout"@.len());
    assert("packet size"@.len() != "timeout"@.len());
    assert("packet size"@.len() != "command timeout"@.len());
    assert("packet size"@.len() != "connectretrycount"@.len());
    assert("packet size"@.len() != "connect retry count"@.len());
    assert("packet size"@.len() != "connectretryinterval"@.len());
    assert("packet size"@.len() != "connect retry interval"@.len());
    assert(!is_server_key("packet size"@));
    assert(is_number_key("packet size"@));
    assert("connectretrycount"@.len() != "server"@.len());
    assert("connectretrycount"@.len() != "data source"@.len());
    assert("connectretrycount"@.len() != "addr"@.len());
    assert("connectretrycount"@.len() != "address"@.len());
    assert("connectretrycount"@.len() != "network address"@.len());
    assert("connectretrycount"@.len() != "host"@.len());
    assert("connectretrycount"@.len() != "port"@.len());
    assert("connectretrycount"@.len() != "connect timeout"@.len());
    assert("connectretrycount"@.len() != "connection timeout"@.len());
    assert("connectretrycount"@.len() != "timeout"@.len());
    assert("connectretrycount"@.len() != "command timeout"@.len());
    assert("connectretrycount"@.len() != "packet size"@.len());
    assert("connectretrycount"@.len() != "connect retry count"@.len());
    assert("connectretrycount"@.len() != "connectretryinterval"@.len());
    assert("connectretrycount"@.len() != "connect retry interval"@.len());
    assert(!is_server_key("connectretrycount"@));
    assert(is_number_key("connectretrycount"@));
    assert("connect retry count"@.len() != "server"@.len());
    assert("connect retry count"@.len() != "data source"@.len());
    assert("connect retry count"@.len() != "addr"@.len());
    assert("connect retry count"@.len() != "address"@.len());
    assert("connect retry count"@.len() != "network address"@.len());
    assert("connect retry count"@.len() != "host"@.len());
    assert("connect retry count"@.len() != "port"@.len());
    assert("connect retry count"@.len() != "connect timeout"@.len());
    assert("connect retry count"@.len() != "connection timeout"@.len());
    assert("connect retry count"@.len() != "timeout"@.len());
    assert("connect retry count"@.len() != "command timeout"@.len());
    assert("connect retry count"@.len() != "packet size"@.len());
    assert("connect retry count"@.len() != "connectretrycount"@.len());
    assert("connect retry count"@.len() != "connectretryinterval"@.len());
    assert("connect retry count"@.len() != "connect retry interval"@.len());
    assert(!is_server_key("connect retry count"@));
    assert(is_number_key("connect retry count"@));
    assert("connectretryinterval"@.len() != "server"@.len());
    assert("connectretryinterval"@.len() != "data source"@.len());
    assert("connectretryinterval"@.len() != "addr"@.len());
    assert("connectretryinterval"@.len() != "address"@.len());
    assert("connectretryinterval"@.len() != "network address"@.len());
    assert("connectretryinterval"@.len() != "host"@.len());
    assert("connectretryinterval"@.len() != "port"@.len());
    assert("connectretryinterval"@.len() != "connect timeout"@.len());
    assert("connectretryinterval"@.len() != "connection timeout"@.len());
    assert("connectretryinterval"@.len() != "timeout"@.len());
    assert("connectretryinterval"@.len() != "command timeout"@.len());
    assert("connectretryinterval"@.len() != "packet size"@.len());
    assert("connectretryinterval"@.len() != "connectretrycount"@.len());
    assert("connectretryinterval"@.len() != "connect retry count"@.len());
    assert("connectretryinterval"@.len() != "connect retry interval"@.len());
    assert(!is_server_key("connectretryinterval"@));
    assert(is_number_key("connectretryinterval"@));
    assert("connect retry interval"@.len() != "server"@.len());
    assert("connect retry interval"@.len() != "data source"@.len());
    assert("connect retry interval"@.len() != "addr"@.len());
    assert("connect retry interval"@.len() != "address"@.len());
    assert("connect retry interval"@.len() != "network address"@.len());
    assert("connect retry interval"@.len() != "host"@.len());
    assert("connect retry interval"@.len() != "port"@.len());
    assert("connect retry interval"@.len() != "connect timeout"@.len());
    assert("connect retry interval"@.len() != "connection timeout"@.len());
    assert("connect retry interval"@.len() != "timeout"@.len());
    assert("connect retry interval"@.len() != "command timeout"@.len());
    assert("connect retry interval"@.len() != "packet size"@.len());
    assert("connect retry interval"@.len() != "connectretrycount"@.len());
    assert("connect retry interval"@.len() != "connect retry count"@.len());
    assert("connect retry interval"@.len() != "connectretryinterval"@.len());
    assert(!is_server_key("connect retry interval"@));
    assert(is_number_key("connect retry interval"@));
}

/// The boolean keywords and their spaced aliases set the same flag to the
/// value's truth: `TrustServerCertificate` the server-certificate trust,
/// `MultipleActiveResultSets` (`MARS`) the MARS flag, `MultiSubnetFailover`
/// the failover flag and `SendStringParametersAsUnicode` the Unicode
/// parameter flag, changing nothing else.
pub proof fn law_bool_keyword_aliases(c: ConfigView, v: Seq<char>)
    requires
        conn_bool_spec(v) is Some,
    ensures
        apply_option_spec(c, "trust server certificate"@, v) == apply_option_spec(
            c,
            "trustservercertificate"@,
            v,
        ),
        apply_option_spec(c, "trustservercertificate"@, v) == Ok::<ConfigView, Seq<char>>(
            ConfigView { trust_server_certificate: conn_bool_spec(v)->0, ..c },
        ),
        apply_option_spec(c, "mars"@, v) == apply_option_spec(c, "multipleactiveresultsets"@, v),
        apply_option_spec(c, "multipleactiveresultsets"@, v) == Ok::<ConfigView, Seq<char>>(
            ConfigView { mars: conn_bool_spec(v)->0, ..c },
        ),
        apply_option_spec(c, "multi subnet failover"@, v) == apply_option_spec(c, "multisubnetfailover"@, v),
        apply_option_spec(c, "multisubnetfailover"@, v) == Ok::<ConfigView, Seq<char>>(
            ConfigView { multi_subnet_failover: conn_bool_spec(v)->0, ..c },
        ),
        apply_option_spec(c, "send string parameters as unicode"@, v) == apply_option_spec(
            c,
            "sendstringparametersasunicode"@,
            v,
        ),
        apply_option_spec(c, "sendstringparametersasunicode"@, v) == Ok::<ConfigView, Seq<char>>(
            ConfigView { send_string_parameters_as_unicode: conn_bool_spec(v)->0, ..c },
        ),
{
    reveal_strlit("server");
    reveal_strlit("data source");
    reveal_strlit("addr");
    reveal_strlit("address");
    reveal_strlit("network address");
    reveal_strlit("host");
    reveal_strlit("port");
    reveal_strlit("connect timeout");
    reveal_strlit("connection timeout");
    reveal_strlit("timeout");
    reveal_strlit("command timeout");
    reveal_strlit("packet size");
    reveal_strlit("connectretrycount");
    reveal_strlit("connect retry count");
    reveal_strlit("connectretryinterval");
    reveal_strlit("connect retry interval");
    reveal_strlit("database");
    reveal_strlit("initial catalog");
    reveal_strlit("user id");
    reveal_strlit("uid");
    reveal_strlit("user");
    reveal_strlit("password");
    reveal_strlit("pwd");
    reveal_strlit("application name");
    reveal_strlit("app");
    reveal_strlit("workstation id");
    reveal_strlit("wsid");
    reveal_strlit("current language");
    reveal_strlit("language");
    reveal_strlit("trustservercertificate");
    reveal_strlit("trust server certificate");
    reveal_strlit("multipleactiveresultsets");
    reveal_strlit("mars");
    reveal_strlit("multisubnetfailover");
    reveal_strlit("multi subnet failover");
    reveal_strlit("sendstringparametersasunicode");
    reveal_strlit("send string parameters as unicode");
    assert("trustservercertificate"@.len() != "server"@.len());
    assert("trustservercertificate"@.len() != "data source"@.len());
    assert("trustservercertificate"@.len() != "addr"@.len());
    assert("trustservercertificate"@.len() != "address"@.len());
    assert("trustservercertificate"@.len() != "network address"@.len());
    assert("trustservercertificate"@.len() != "host"@.len());
    assert("trustservercertificate"@.len() != "port"@.len());
    assert("trustservercertificate"@.len() != "connect timeout"@.len());
    assert("trustservercertificate"@.len() != "connection timeout"@.len());
    assert("trustservercertificate"@.len() != "timeout"@.len());
    assert("trustservercertificate"@.len() != "command timeout"@.len());
    assert("trustservercertificate"@.len() != "packet size"@.len());
    assert("trustservercertificate"@.len() != "connectretrycount"@.len());
    assert("trustservercertificate"@.len() != "connect retry count"@.len());
    assert("trustservercertificate"@.len() != "connectretryinterval"@.len());
    assert("trustservercertificate"@[0] != "connect retry interval"@[0]);
    assert("trustservercertificate"@.len() != "database"@.len());
    assert("trustservercertificate"@.len() != "initial catalog"@.len());
    assert("trustservercertificate"@.len() != "user id"@.len());
    assert("trustservercertificate"@.len() != "uid"@.len());
    assert("trustservercertificate"@.len() != "user"@.len());
    assert("trustservercertificate"@.len() != "password"@.len());
    assert("trustservercertificate"@.len() != "pwd"@.len());
    assert("trustservercertificate"@.len() != "application name"@.len());
    assert("trustservercertificate"@.len() != "app"@.len());
    assert("trustservercertificate"@.len() != "workstation id"@.len());
    assert("trustservercertificate"@.len() != "wsid"@.len());
    assert("trustservercertificate"@.len() != "current language"@.len());
    assert("trustservercertificate"@.len() != "language"@.len());
    assert("trustservercertificate"@.len() != "trust server certificate"@.len());
    assert("trustservercertificate"@.len() != "multipleactiveresultsets"@.len());
    assert("trustservercertificate"@.len() != "mars"@.len());
    assert("trustservercertificate"@.len() != "multisubnetfailover"@.len());
    assert("trustservercertificate"@.len() != "multi subnet failover"@.len());
    assert("trustservercertificate"@.len() != "sendstringparametersasunicode"@.len());
    assert("trustservercertificate"@.len() != "send string parameters as unicode"@.len());
    assert(!is_server_key("trustservercertificate"@));
    assert(!is_number_key("trustservercertificate"@));
    assert(!is_text_key("trustservercertificate"@));
    assert(is_bool_key("trustservercertificate"@));
    assert("trust server certificate"@.len() != "server"@.len());
    assert("trust server certificate"@.len() != "data source"@.len());
    assert("trust server certificate"@.len() != "addr"@.len());
    assert("trust server certificate"@.len() != "address"@.len());
    assert("trust server certificate"@.len() != "network address"@.len());
    assert("trust server certificate"@.len() != "host"@.len());
    assert("trust server certificate"@.len() != "port"@.len());
    assert("trust server certificate"@.len() != "connect timeout"@.len());
    assert("trust server certificate"@.len() != "connection timeout"@.len());
    assert("trust server certificate"@.len() != "timeout"@.len());
    assert("trust server certificate"@.len() != "command timeout"@.len());
    assert("trust server certificate"@.len() != "packet size"@.len());
    assert("trust server certificate"@.len() != "connectretrycount"@.len());
    assert("trust server certificate"@.len() != "connect retry count"@.len());
    assert("trust server certificate"@.len() != "connectretryinterval"@.len());
    assert("trust server certificate"@.len() != "connect retry interval"@.len());
    assert("trust server certificate"@.len() != "database"@.len());
    assert("trust server certificate"@.len() != "initial catalog"@.len());
    assert("trust server certificate"@.len() != "user id"@.len());
    assert("trust server certificate"@.len() != "uid"@.len());
    assert("trust server certificate"@.len() != "user"@.len());
    assert("trust server certificate"@.len() != "password"@.len());
    assert("trust server certificate"@.len() != "pwd"@.len());
    assert("trust server certificate"@.len() != "application name"@.len());
    assert("trust server certificate"@.len() != "app"@.len());
    assert("trust server certificate"@.len() != "workstation id"@.len());
    assert("trust server certificate"@.len() != "wsid"@.len());
    assert("trust server certificate"@.len() != "current language"@.len());
    assert("trust server certificate"@.len() != "language"@.len());
    assert("trust server certificate"@.len() != "trustservercertificate"@.len());
    assert("trust server certificate"@[0] != "multipleactiveresultsets"@[0]);
    assert("trust server certificate"@.len() != "mars"@.len());
    assert("trust server certificate"@.len() != "multisubnetfailover"@.len());
    assert("trust server certificate"@.len() != "multi subnet failover"@.len());
    assert("trust server certificate"@.len() != "sendstringparametersasunicode"@.len());
    assert("trust server certificate"@.len() != "send string parameters as unicode"@.len());
    assert(!is_server_key("trust server certificate"@));
    assert(!is_number_key("trust server certificate"@));
    assert(!is_text_key("trust server certificate"@));
    assert(is_bool_key("trust server certificate"@));
    assert("multipleactiveresultsets"@.len() != "server"@.len());
    assert("multipleactiveresultsets"@.len() != "data source"@.len());
    assert("multipleactiveresultsets"@.len() != "addr"@.len());
    assert("multipleactiveresultsets"@.len() != "address"@.len());
    assert("multipleactiveresultsets"@.len() != "network address"@.len());
    assert("multipleactiveresultsets"@.len() != "host"@.len());
    assert("multipleactiveresultsets"@.len() != "port"@.len());
    assert("multipleactiveresultsets"@.len() != "connect timeout"@.len());
    assert("multipleactiveresultsets"@.len() != "connection timeout"@.len());
    assert("multipleactiveresultsets"@.len() != "timeout"@.len());
    assert("multipleactiveresultsets"@.len() != "command timeout"@.len());
    assert("multipleactiveresultsets"@.len() != "packet size"@.len());
    assert("multipleactiveresultsets"@.len() != "connectretrycount"@.len());
    assert("multipleactiveresultsets"@.len() != "connect retry count"@.len());
    assert("multipleactiveresultsets"@.len() != "connectretryinterval"@.len());
    assert("multipleactiveresultsets"@.len() != "connect retry interval"@.len());
    assert("multipleactiveresultsets"@.len() != "database"@.len());
    assert("multipleactiveresultsets"@.len() != "initial catalog"@.len());
    assert("multipleactiveresultsets"@.len() != "user id"@.len());
    assert("multipleactiveresultsets"@.len() != "uid"@.len());
    assert("multipleactiveresultsets"@.len() != "user"@.len());
    assert("multipleactiveresultsets"@.len() != "password"@.len());
    assert("multipleactiveresultsets"@.len() != "pwd"@.len());
    assert("multipleactiveresultsets"@.len() != "application name"@.len());
    assert("multipleactiveresultsets"@.len() != "app"@.len());
    assert("multipleactiveresultsets"@.len() != "workstation id"@.len());
    assert("multipleactiveresultsets"@.len() != "wsid"@.len());
    assert("multipleactiveresultsets"@.len() != "current language"@.len());
    assert("multipleactiveresultsets"@.len() != "language"@.len());
    assert("multipleactiveresultsets"@.len() != "trustservercertificate"@.len());
    assert("multipleactiveresultsets"@[0] != "trust server certificate"@[0]);
    assert("multipleactiveresultsets"@.len() != "mars"@.len());
    assert("multipleactiveresultsets"@.len() != "multisubnetfailover"@.len());
    assert("multipleactiveresultsets"@.len() != "multi subnet failover"@.len());
    assert("multipleactiveresultsets"@.len() != "sendstringparametersasunicode"@.len());
    assert("multipleactiveresultsets"@.len() != "send string parameters as unicode"@.len());
    assert(!is_server_key("multipleactiveresultsets"@));
    assert(!is_number_key("multipleactiveresultsets"@));
    assert(!is_text_key("multipleactiveresultsets"@));
    assert(is_bool_key("multipleactiveresultsets"@));
    assert("mars"@.len() != "server"@.len());
    assert("mars"@.len() != "data source"@.len());
    assert("mars"@[0] != "addr"@[0]);
    assert("mars"@.len() != "address"@.len());
    assert("mars"@.len() != "network address"@.len());
    assert("mars"@[0] != "host"@[0]);
    assert("mars"@[0] != "port"@[0]);
    assert("mars"@.len() != "connect timeout"@.len());
    assert("mars"@.len() != "connection timeout"@.len());
    assert("mars"@.len() != "timeout"@.len());
    assert("mars"@.len() != "command timeout"@.len());
    assert("mars"@.len() != "packet size"@.len());
    assert("mars"@.len() != "connectretrycount"@.len());
    assert("mars"@.len() != "connect retry count"@.len());
    assert("mars"@.len() != "connectretryinterval"@.len());
    assert("mars"@.len() != "connect retry interval"@.len());
    assert("mars"@.len() != "database"@.len());
    assert("mars"@.len() != "initial catalog"@.len());
    assert("mars"@.len() != "user id"@.len());
    assert("mars"@.len() != "uid"@.len());
    assert("mars"@[0] != "user"@[0]);
    assert("mars"@.len() != "password"@.len());
    assert("mars"@.len() != "pwd"@.len());
    assert("mars"@.len() != "application name"@.len());
    assert("mars"@.len() != "app"@.len());
    assert("mars"@.len() != "workstation id"@.len());
    assert("mars"@[0] != "wsid"@[0]);
    assert("mars"@.len() != "current language"@.len());
    assert("mars"@.len() != "language"@.len());
    assert("mars"@.len() != "trustservercertificate"@.len());
    assert("mars"@.len() != "trust server certificate"@.len());
    assert("mars"@.len() != "multipleactiveresultsets"@.len());
    assert("mars"@.len() != "multisubnetfailover"@.len());
    assert("mars"@.len() != "multi subnet failover"@.len());
    assert("mars"@.len() != "sendstringparametersasunicode"@.len());
    assert("mars"@.len() != "send string parameters as unicode"@.len());
    assert(!is_server_key("mars"@));
    assert(!is_number_key("mars"@));
    assert(!is_text_key("mars"@));
    assert(is_bool_key("mars"@));
    assert("multisubnetfailover"@.len() != "server"@.len());
    assert("multisubnetfailover"@.len() != "data source"@.len());
    assert("multisubnetfailover"@.len() != "addr"@.len());
    assert("multisubnetfailover"@.len() != "address"@.len());
    assert("multisubnetfailover"@.len() != "network address"@.len());
    assert("multisubnetfailover"@.len() != "host"@.len());
    assert("multisubnetfailover"@.len() != "port"@.len());
    assert("multisubnetfailover"@.len() != "connect timeout"@.len());
    assert("multisubnetfailover"@.len() != "connection timeout"@.len());
    assert("multisubnetfailover"@.len() != "timeout"@.len());
    assert("multisubnetfailover"@.len() != "command timeout"@.len());
    assert("multisubnetfailover"@.len() != "packet size"@.len());
    assert("multisubnetfailover"@.len() != "connectretrycount"@.len());
    assert("multisubnetfailover"@[0] != "connect retry count"@[0]);
    assert("multisubnetfailover"@.len() != "connectretryinterval"@.len());
    assert("multisubnetfailover"@.len() != "connect retry interval"@.len());
    assert("multisubnetfailover"@.len() != "database"@.len());
    assert("multisubnetfailover"@.len() != "initial catalog"@.len());
    assert("multisubnetfailover"@.len() != "user id"@.len());
    assert("multisubnetfailover"@.len() != "uid"@.len());
    assert("multisubnetfailover"@.len() != "user"@.len());
    assert("multisubnetfailover"@.len() != "password"@.len());
    assert("multisubnetfailover"@.len() != "pwd"@.len());
    assert("multisubnetfailover"@.len() != "application name"@.len());
    assert("multisubnetfailover"@.len() != "app"@.len());
    assert("multisubnetfailover"@.len() != "workstation id"@.len());
    assert("multisubnetfailover"@.len() != "wsid"@.len());
    assert("multisubnetfailover"@.len() != "current language"@.len());
    assert("multisubnetfailover"@.len() != "language"@.len());
    assert("multisubnetfailover"@.len() != "trustservercertificate"@.len());
    assert("multisubnetfailover"@.len() != "trust server certificate"@.len());
    assert("multisubnetfailover"@.len() != "multipleactiveresultsets"@.len());
    assert("multisubnetfailover"@.len() != "mars"@.len());
    assert("multisubnetfailover"@.len() != "multi subnet failover"@.len());
    assert("multisubnetfailover"@.len() != "sendstringparametersasunicode"@.len());
    assert("multisubnetfailover"@.len() != "send string parameters as unicode"@.len());
    assert(!is_server_key("multisubnetfailover"@));
    assert(!is_number_key("multisubnetfailover"@));
    assert(!is_text_key("multisubnetfailover"@));
    assert(is_bool_key("multisubnetfailover"@));
    assert("multi subnet failover"@.len() != "server"@.len());
    assert("multi subnet failover"@.len() != "data source"@.len());
    assert("multi subnet failover"@.len() != "addr"@.len());
    assert("multi subnet failover"@.len() != "address"@.len());
    assert("multi subnet failover"@.len() != "network address"@.len());
    assert("multi subnet failover"@.len() != "host"@.len());
    assert("multi subnet failover"@.len() != "port"@.len());
    assert("multi subnet failover"@.len() != "connect timeout"@.len());
    assert("multi subnet failover"@.len() != "connection timeout"@.len());
    assert("multi subnet failover"@.len() != "timeout"@.len());
    assert("multi subnet failover"@.len() != "command timeout"@.len());
    assert("multi subnet failover"@.len() != "packet size"@.len());
    assert("multi subnet failover"@.len() != "connectretrycount"@.len());
    assert("multi subnet failover"@.len() != "connect retry count"@.len());
    assert("multi subnet failover"@.len() != "connectretryinterval"@.len());
    assert("multi subnet failover"@.len() != "connect retry interval"@.len());
    assert("multi subnet failover"@.len() != "database"@.len());
    assert("multi subnet failover"@.len() != "initial catalog"@.len());
    assert("multi subnet failover"@.len() != "user id"@.len());
    assert("multi subnet failover"@.len() != "uid"@.len());
    assert("multi subnet failover"@.len() != "user"@.len());
    assert("multi subnet failover"@.len() != "password"@.len());
    assert("multi subnet failover"@.len() != "pwd"@.len());
    assert("multi subnet failover"@.len() != "application name"@.len());
    assert("multi subnet failover"@.len() != "app"@.len());
    assert("multi subnet failover"@.len() != "workstation id"@.len());
    assert("multi subnet failover"@.len() != "wsid"@.len());
    assert("multi subnet failover"@.len() != "current language"@.len());
    assert("multi subnet failover"@.len() != "language"@.len());
    assert("multi subnet failover"@.len() != "trustservercertificate"@.len());
    assert("multi subnet failover"@.len() != "trust server certificate"@.len());
    assert("multi subnet failover"@.len() != "multipleactiveresultsets"@.len());
    assert("multi subnet failover"@.len() != "mars"@.len());
    assert("multi subnet failover"@.len() != "multisubnetfailover"@.len());
    assert("multi subnet failover"@.len() != "sendstringparametersasunicode"@.len());
    assert("multi subnet failover"@.len() != "send string parameters as unicode"@.len());
    assert(!is_server_key("multi subnet failover"@));
    assert(!is_number_key("multi subnet failover"@));
    assert(!is_text_key("multi subnet failover"@));
    assert(is_bool_key("multi subnet failover"@));
    assert("sendstringparametersasunicode"@.len() != "server"@.len());
    assert("sendstringparametersasunicode"@.len() != "data source"@.len());
    assert("sendstringparametersasunicode"@.len() != "addr"@.len());
    assert("sendstringparametersasunicode"@.len() != "address"@.len());
    assert("sendstringparametersasunicode"@.len() != "network address"@.len());
    assert("sendstringparametersasunicode"@.len() != "host"@.len());
    assert("sendstringparametersasunicode"@.len() != "port"@.len());
    assert("sendstringparametersasunicode"@.len() != "connect timeout"@.len());
    assert("sendstringparametersasunicode"@.len() != "connection timeout"@.len());
    assert("sendstringparametersasunicode"@.len() != "timeout"@.len());
    assert("sendstringparametersasunicode"@.len() != "command timeout"@.len());
    assert("sendstringparametersasunicode"@.len() != "packet size"@.len());
    assert("sendstringparametersasunicode"@.len() != "connectretrycount"@.len());
    assert("sendstringparametersasunicode"@.len() != "connect retry count"@.len());
    assert("sendstringparametersasunicode"@.len() != "connectretryinterval"@.len());
    assert("sendstringparametersasunicode"@.len() != "connect retry interval"@.len());
    assert("sendstringparametersasunicode"@.len() != "database"@.len());
    assert("sendstringparametersasunicode"@.len() != "initial catalog"@.len());
    assert("sendstringparametersasunicode"@.len() != "user id"@.len());
    assert("sendstringparametersasunicode"@.len() != "uid"@.len());
    assert("sendstringparametersasunicode"@.len() != "user"@.len());
    assert("sendstringparametersasunicode"@.len() != "password"@.len());
    assert("sendstringparametersasunicode"@.len() != "pwd"@.len());
    assert("sendstringparametersasunicode"@.len() != "application name"@.len());
    assert("sendstringparametersasunicode"@.len() != "app"@.len());
    assert("sendstringparametersasunicode"@.len() != "workstation id"@.len());
    assert("sendstringparametersasunicode"@.len() != "wsid"@.len());
    assert("sendstringparametersasunicode"@.len() != "current language"@.len());
    assert("sendstringparametersasunicode"@.len() != "language"@.len());
    assert("sendstringparametersasunicode"@.len() != "trustservercertificate"@.len());
    assert("sendstringparametersasunicode"@.len() != "trust server certificate"@.len());
    assert("sendstringparametersasunicode"@.len() != "multipleactiveresultsets"@.len());
    assert("sendstringparametersasunicode"@.len() != "mars"@.len());
    assert("sendstringparametersasunicode"@.len() != "multisubnetfailover"@.len());
    assert("sendstringparametersasunicode"@.len() != "multi subnet failover"@.len());
    assert("sendstringparametersasunicode"@.len() != "send string parameters as unicode"@.len());
    assert(!is_server_key("sendstringparametersasunicode"@));
    assert(!is_number_key("sendstringparametersasunicode"@));
    assert(!is_text_key("sendstringparametersasunicode"@));
    assert(is_bool_key("sendstringparametersasunicode"@));
    assert("send string parameters as unicode"@.len() != "server"@.len());
    assert("send string parameters as unicode"@.len() != "data source"@.len());
    assert("send string parameters as unicode"@.len() != "addr"@.len());
    assert("send string parameters as unicode"@.len() != "address"@.len());
    assert("send string parameters as unicode"@.len() != "network address"@.len());
    assert("send string parameters as unicode"@.len() != "host"@.len());
    assert("send string parameters as unicode"@.len() != "port"@.len());
    assert("send string parameters as unicode"@.len() != "connect timeout"@.len());
    assert("send string parameters as unicode"@.len() != "connection timeout"@.len());
    assert("send string parameters as unicode"@.len() != "timeout"@.len());
    assert("send string parameters as unicode"@.len() != "command timeout"@.len());
    assert("send string parameters as unicode"@.len() != "packet size"@.len());
    assert("send string parameters as unicode"@.len() != "connectretrycount"@.len());
    assert("send string parameters as unicode"@.len() != "connect retry count"@.len());
    assert("send string parameters as unicode"@.len() != "connectretryinterval"@.len());
    assert("send string parameters as unicode"@.len() != "connect retry interval"@.len());
    assert("send string parameters as unicode"@.len() != "database"@.len());
    assert("send string parameters as unicode"@.len() != "initial catalog"@.len());
    assert("send string parameters as unicode"@.len() != "user id"@.len());
    assert("send string parameters as unicode"@.len() != "uid"@.len());
    assert("send string parameters as unicode"@.len() != "user"@.len());
    assert("send string parameters as unicode"@.len() != "password"@.len());
    assert("send string parameters as unicode"@.len() != "pwd"@.len());
    assert("send string parameters as unicode"@.len() != "application name"@.len());
    assert("send string parameters as unicode"@.len() != "app"@.len());
    assert("send string parameters as unicode"@.len() != "workstation id"@.len());
    assert("send string parameters as unicode"@.len() != "wsid"@.len());
    assert("send string parameters as unicode"@.len() != "current language"@.len());
    assert("send string parameters as unicode"@.len() != "language"@.len());
    assert("send string parameters as unicode"@.len() != "trustservercertificate"@.len());
    assert("send string parameters as unicode"@.len() != "trust server certificate"@.len());
    assert("send string parameters as unicode"@.len() != "multipleactiveresultsets"@.len());
    assert("send string parameters as unicode"@.len() != "mars"@.len());
    assert("send string parameters as unicode"@.len() != "multisubnetfailover"@.len());
    assert("send string parameters as unicode"@.len() != "multi subnet failover"@.len());
    assert("send string parameters as unicode"@.len() != "sendstringparametersasunicode"@.len());
    assert(!is_server_key("send string parameters as unicode"@));
    assert(!is_number_key("send string parameters as unicode"@));
    assert(!is_text_key("send string parameters as unicode"@));
    assert(is_bool_key("send string parameters as unicode"@));
}

} // verus!
