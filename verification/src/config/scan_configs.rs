//! Content types and the leaf configuration types of the ingest pipeline.

use vstd::prelude::*;
use crate::ieee::Binary64;
use crate::text::{characters, decimal, law_decimal_stands_for_its_number, numeral};

verus! {

/// The content type of a document being ingested into the pipeline.
#[derive(Debug, Clone, Copy, PartialEq, Eq, Structural)]
pub enum ContentType {
    /// Plain unstructured text (e.g. transcripts, notes).
    Text,
    /// A discrete conversational message (e.g. chat turn, email).
    Message,
    /// Structured JSON payload; entity extraction is schema-aware.
    Json,
    /// A standalone document, stored as a searchable entity in addition to its
    /// extracted sub-entities.
    Document,
}

/// Pattern of `0.15`.
pub const DENSITY_THRESHOLD_BITS: u64 = 0x3fc3_3333_3333_3333;

/// Pattern of `0.9`.
pub const JACCARD_THRESHOLD_BITS: u64 = 0x3fec_cccc_cccc_cccd;

/// Pattern of `1.5`.
pub const ENTROPY_THRESHOLD_BITS: u64 = 0x3ff8_0000_0000_0000;

/// Parameters of the window that slices an oversized episode body into
/// prompt-sized pieces for the extractor.
#[derive(Debug, Clone, Copy)]
pub struct ExtractionWindowConfig {
    /// Shorter text is never split.
    pub min_words: usize,
    /// Entity density above which a chunk is split.
    pub density_threshold: Binary64,
    /// Longest chunk.
    pub max_words: usize,
    /// Words from the end of one chunk that open the next.
    pub overlap_words: usize,
}

/// The environment variables that tune the extraction window, as they were read;
/// `None` for one that is not set. The density threshold comes already parsed,
/// `None` when it is unset or no number.
#[derive(Debug, Clone)]
pub struct WindowVariables {
    pub max_words: Option<String>,
    pub max_tokens: Option<String>,
    pub min_words: Option<String>,
    pub min_tokens: Option<String>,
    pub overlap_words: Option<String>,
    pub overlap_tokens: Option<String>,
    pub density_threshold: Option<Binary64>,
}

/// The value of a run of decimal digits, or `None` when some character is no digit.
pub open spec fn digits_value(s: Seq<char>) -> Option<nat>
    decreases s.len(),
{
    if s.len() == 0 {
        Some(0)
    } else {
        let c = s.last() as int;
        match digits_value(s.drop_last()) {
            Some(v) if 48 <= c <= 57 => Some((v * 10 + (c - 48)) as nat),
            _ => None,
        }
    }
}

/// What parsing `s` as a machine-sized unsigned number gives: digits, at least one,
/// behind an optional `+`, of a value that fits.
pub open spec fn parsed_usize(s: Seq<char>) -> Option<usize> {
    let body = if s.len() > 0 && s[0] == '+' {
        s.drop_first()
    } else {
        s
    };
    if body.len() == 0 {
        None
    } else {
        match digits_value(body) {
            Some(v) if v <= usize::MAX => Some(v as usize),
            _ => None,
        }
    }
}

/// A setting read from its variable, else from the legacy variable, else the default.
pub open spec fn setting(new_var: Option<String>, old_var: Option<String>, default: usize) -> usize {
    match new_var {
        Some(v) if parsed_usize(v@) is Some => parsed_usize(v@)->0,
        _ => match old_var {
            Some(v) if parsed_usize(v@) is Some => parsed_usize(v@)->0,
            _ => default,
        },
    }
}

/// Once some prefix of the digits exceeds a bound, so does the whole.
proof fn digits_value_grows(s: Seq<char>, n: int, bound: nat)
    requires
        0 <= n <= s.len(),
        digits_value(s.take(n)) is None || digits_value(s.take(n))->0 > bound,
    ensures
        digits_value(s) is None || digits_value(s)->0 > bound,
    decreases s.len() - n,
{
    if n == s.len() {
        assert(s.take(n) =~= s);
    } else {
        assert(s.take(n + 1).drop_last() =~= s.take(n));
        digits_value_grows(s, n + 1, bound);
    }
}

/// Parses a machine-sized unsigned number.
pub fn parse_usize(s: &str) -> (r: Option<usize>)
    ensures
        r == parsed_usize(s@),
{
    let chars = characters(s);
    let start: usize = if chars.len() > 0 && chars[0] == '+' {
        1
    } else {
        0
    };
    let ghost body = s@.skip(start as int);
    proof {
        if start == 0 {
            assert(body =~= s@);
        } else {
            assert(body =~= s@.drop_first());
        }
    }
    if start == chars.len() {
        return None;
    }
    let mut value: usize = 0;
    let mut i: usize = start;
    proof {
        assert(body.take(0) =~= Seq::<char>::empty());
    }
    while i < chars.len()
        invariant
            start <= i <= chars.len(),
            chars@ == s@,
            body == s@.skip(start as int),
            digits_value(body.take(i - start)) == Some(value as nat),
            body.len() > 0,
            parsed_usize(s@) == (match digits_value(body) {
                Some(v) if v <= usize::MAX => Some(v as usize),
                _ => None::<usize>,
            }),
        decreases chars.len() - i,
    {
        let c: char = chars[i];
        proof {
            assert(body.take(i + 1 - start).drop_last() =~= body.take(i - start));
            assert(body.take(i + 1 - start).last() == c);
        }
        if !('0' <= c && c <= '9') {
            proof {
                digits_value_grows(body, i + 1 - start, usize::MAX as nat);
            }
            return None;
        }
        let d: usize = (c as u32 - 48) as usize;
        let shifted = value.checked_mul(10);
        let next = match shifted {
            Some(v) => v.checked_add(d),
            None => None,
        };
        match next {
            Some(v) => {
                value = v;
            },
            None => {
                proof {
                    digits_value_grows(body, i + 1 - start, usize::MAX as nat);
                }
                return None;
            },
        }
        i = i + 1;
    }
    proof {
        assert(body.take(i - start) =~= body);
    }
    Some(value)
}

/// A setting from its variable, else from the legacy variable, else the default.
fn env_usize_or(new_var: &Option<String>, old_var: &Option<String>, default: usize) -> (r: usize)
    ensures
        r == setting(*new_var, *old_var, default),
{
    if let Some(v) = new_var {
        if let Some(n) = parse_usize(v.as_str()) {
            return n;
        }
    }
    if let Some(v) = old_var {
        if let Some(n) = parse_usize(v.as_str()) {
            return n;
        }
    }
    default
}

impl ExtractionWindowConfig {
    /// The window that the environment variables ask for: each setting comes from
    /// its variable, else from the legacy variable, else it is the default.
    pub fn from_env(vars: &WindowVariables) -> (r: ExtractionWindowConfig)
        ensures
            r.max_words == setting(vars.max_words, vars.max_tokens, 300),
            r.min_words == setting(vars.min_words, vars.min_tokens, 100),
            r.overlap_words == setting(vars.overlap_words, vars.overlap_tokens, 50),
            r.density_threshold == (match vars.density_threshold {
                Some(d) => d,
                None => Binary64 { bits: DENSITY_THRESHOLD_BITS },
            }),
    {
        ExtractionWindowConfig {
            max_words: env_usize_or(&vars.max_words, &vars.max_tokens, 300),
            min_words: env_usize_or(&vars.min_words, &vars.min_tokens, 100),
            overlap_words: env_usize_or(&vars.overlap_words, &vars.overlap_tokens, 50),
            density_threshold: match vars.density_threshold {
                Some(d) => d,
                None => Binary64 { bits: DENSITY_THRESHOLD_BITS },
            },
        }
    }
}

impl Default for ExtractionWindowConfig {
    fn default() -> (r: Self)
        ensures
            r == (ExtractionWindowConfig {
                min_words: 100,
                density_threshold: Binary64 { bits: DENSITY_THRESHOLD_BITS },
                max_words: 300,
                overlap_words: 50,
            }),
    {
        ExtractionWindowConfig {
            min_words: 100,
            density_threshold: Binary64 { bits: DENSITY_THRESHOLD_BITS },
            max_words: 300,
            overlap_words: 50,
        }
    }
}

/// MinHash / LSH parameters used for near-duplicate entity detection.
#[derive(Debug, Clone, Copy)]
pub struct MinHashConfig {
    pub num_permutations: usize,
    /// Characters per shingle.
    pub shingle_size: usize,
    /// Permutations per band.
    pub band_size: usize,
    /// Shingle overlap from which two surface forms are one entity.
    pub jaccard_threshold: Binary64,
}

impl Default for MinHashConfig {
    fn default() -> (r: Self)
        ensures
            r == (MinHashConfig {
                num_permutations: 32,
                shingle_size: 3,
                band_size: 4,
                jaccard_threshold: Binary64 { bits: JACCARD_THRESHOLD_BITS },
            }),
    {
        MinHashConfig {
            num_permutations: 32,
            shingle_size: 3,
            band_size: 4,
            jaccard_threshold: Binary64 { bits: JACCARD_THRESHOLD_BITS },
        }
    }
}

/// Entropy-based pre-filter that gates whether a token is fed into MinHash.
#[derive(Debug, Clone, Copy)]
pub struct EntropyConfig {
    pub min_name_length: usize,
    pub min_token_count: usize,
    /// Shannon entropy in bits below which a name carries no content.
    pub entropy_threshold: Binary64,
}

impl Default for EntropyConfig {
    fn default() -> (r: Self)
        ensures
            r == (EntropyConfig {
                min_name_length: 6,
                min_token_count: 2,
                entropy_threshold: Binary64 { bits: ENTROPY_THRESHOLD_BITS },
            }),
    {
        EntropyConfig {
            min_name_length: 6,
            min_token_count: 2,
            entropy_threshold: Binary64 { bits: ENTROPY_THRESHOLD_BITS },
        }
    }
}

/// What the ingest-time secret scan does with a hit.
#[derive(Debug, Clone, Copy, PartialEq, Eq, Structural)]
pub enum SecretScanMode {
    /// Leave the episode text untouched and record the hit.
    FlagOnly,
    /// Replace every detected secret span before the episode is stored.
    Redact,
}

impl Default for SecretScanMode {
    fn default() -> (r: Self)
        ensures
            r == SecretScanMode::FlagOnly,
    {
        SecretScanMode::FlagOnly
    }
}

/// Ingest-boundary secret, API-key and token detection.
#[derive(Debug, Clone, Copy)]
pub struct SecretScanConfig {
    /// `false` skips the scan entirely.
    pub enabled: bool,
    pub mode: SecretScanMode,
}

impl Default for SecretScanConfig {
    fn default() -> (r: Self)
        ensures
            r == (SecretScanConfig { enabled: true, mode: SecretScanMode::FlagOnly }),
    {
        SecretScanConfig { enabled: true, mode: SecretScanMode::FlagOnly }
    }
}

/// Every character is a decimal digit.
pub open spec fn all_digits(s: Seq<char>) -> bool {
    forall|i: int| 0 <= i < s.len() ==> '0' <= #[trigger] s[i] <= '9'
}

proof fn digits_stand_for_their_number(s: Seq<char>)
    ensures
        digits_value(s) is Some <==> all_digits(s),
        digits_value(s) matches Some(v) ==> v == numeral(s),
    decreases s.len(),
{
    if s.len() > 0 {
        let front = s.drop_last();
        digits_stand_for_their_number(front);
        assert(s[s.len() - 1] == s.last());
        if all_digits(s) {
            assert forall|i: int| 0 <= i < front.len() implies '0' <= #[trigger] front[i]
                <= '9' by {
                assert(front[i] == s[i]);
            }
        }
        if all_digits(front) && '0' <= s.last() <= '9' {
            assert forall|i: int| 0 <= i < s.len() implies '0' <= #[trigger] s[i] <= '9' by {
                if i < front.len() {
                    assert(front[i] == s[i]);
                }
            }
        }
    }
}

/// A text parses as a number exactly when it is one or more digits, behind at most one plus
/// sign, that stand for a number which fits; and it parses as the number that they stand for.
pub proof fn law_number_is_what_the_digits_stand_for(s: Seq<char>, digits: Seq<char>)
    requires
        digits == (if s.len() > 0 && s[0] == '+' {
            s.skip(1)
        } else {
            s
        }),
    ensures
        parsed_usize(s) is Some <==> digits.len() > 0 && all_digits(digits) && numeral(digits)
            <= usize::MAX,
        parsed_usize(s) matches Some(n) ==> n == numeral(digits),
{
    assert(s.len() > 0 ==> s.drop_first() =~= s.skip(1));
    digits_stand_for_their_number(digits);
}

/// A number that is rendered parses as itself.
pub proof fn law_rendered_number_parses(n: usize)
    ensures
        parsed_usize(decimal(n as nat)) == Some(n),
{
    let s = decimal(n as nat);
    law_decimal_stands_for_its_number(n as nat);
    assert('0' <= s[0] <= '9');
    law_number_is_what_the_digits_stand_for(s, s);
}

/// A setting comes from its variable when that holds a number, else from the legacy variable
/// when that holds one, and else it is the default. A variable that holds no number counts as
/// one that is not there.
pub proof fn law_setting_prefers_its_variable(
    new_var: Option<String>,
    old_var: Option<String>,
    default: usize,
)
    ensures
        new_var is Some && parsed_usize(new_var->0@) is Some ==> setting(new_var, old_var, default)
            == parsed_usize(new_var->0@)->0,
        !(new_var is Some && parsed_usize(new_var->0@) is Some) && old_var is Some && parsed_usize(
            old_var->0@,
        ) is Some ==> setting(new_var, old_var, default) == parsed_usize(old_var->0@)->0,
        !(new_var is Some && parsed_usize(new_var->0@) is Some) && !(old_var is Some
            && parsed_usize(old_var->0@) is Some) ==> setting(new_var, old_var, default) == default,
{
}

}
