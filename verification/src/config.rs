//! Settings: how they are read from the environment's values, and the checks
//! that depend on nothing but settings.

use crate::text::{
    blank, chars_of, decimal, is_blank, law_trim_takes_off_white_space, option_str, option_text,
    same_text, white_space,
};
use vstd::prelude::*;

verus! {

pub const DEFAULT_MAX_FRAME_BYTES: usize = 32768;

pub const DEFAULT_MAX_INBOUND_EVENTS: usize = 512;

pub const DEFAULT_DEDUPE_EVENTS: usize = 65536;

pub const DEFAULT_PENDING_JOURNAL_COMPACT_BYTES: u64 = 16_777_216;

/// The settings of the service.
#[derive(Debug)]
pub struct Config {
    pub bind: String,
    pub db_driver: String,
    pub db_host: String,
    pub db_port: u16,
    pub db_name: String,
    pub db_user: String,
    pub db_pass: String,
    pub flush_interval_ms: u64,
    pub max_batch_rows: usize,
    pub queue_limit: usize,
    pub require_localhost: bool,
    pub max_frame_bytes: usize,
    pub max_inbound_events: usize,
    pub dedupe_events: usize,
    pub pending_journal_compact_bytes: u64,
    pub debug: bool,
    pub auth_token: String,
}

/// The settings with their texts as sequences of characters.
#[verifier::ext_equal]
pub struct ConfigModel {
    pub bind: Seq<char>,
    pub db_driver: Seq<char>,
    pub db_host: Seq<char>,
    pub db_port: u16,
    pub db_name: Seq<char>,
    pub db_user: Seq<char>,
    pub db_pass: Seq<char>,
    pub flush_interval_ms: u64,
    pub max_batch_rows: usize,
    pub queue_limit: usize,
    pub require_localhost: bool,
    pub max_frame_bytes: usize,
    pub max_inbound_events: usize,
    pub dedupe_events: usize,
    pub pending_journal_compact_bytes: u64,
    pub debug: bool,
    pub auth_token: Seq<char>,
}

impl View for Config {
    type V = ConfigModel;

    open spec fn view(&self) -> ConfigModel {
        ConfigModel {
            bind: self.bind@,
            db_driver: self.db_driver@,
            db_host: self.db_host@,
            db_port: self.db_port,
            db_name: self.db_name@,
            db_user: self.db_user@,
            db_pass: self.db_pass@,
            flush_interval_ms: self.flush_interval_ms,
            max_batch_rows: self.max_batch_rows,
            queue_limit: self.queue_limit,
            require_localhost: self.require_localhost,
            max_frame_bytes: self.max_frame_bytes,
            max_inbound_events: self.max_inbound_events,
            dedupe_events: self.dedupe_events,
            pending_journal_compact_bytes: self.pending_journal_compact_bytes,
            debug: self.debug,
            auth_token: self.auth_token@,
        }
    }
}

/// The values of the environment variables that start with `PLUGIN_STATS_`,
/// each under the rest of its name. Nothing for a variable that is not set.
#[derive(Debug)]
pub struct ConfigVars {
    pub bind: Option<String>,
    pub db_driver: Option<String>,
    pub db_host: Option<String>,
    pub db_port: Option<String>,
    pub db_name: Option<String>,
    pub db_user: Option<String>,
    pub db_pass: Option<String>,
    pub flush_interval_ms: Option<String>,
    pub max_batch_rows: Option<String>,
    pub queue_limit: Option<String>,
    pub require_localhost: Option<String>,
    pub max_frame_bytes: Option<String>,
    pub max_inbound_events: Option<String>,
    pub dedupe_events: Option<String>,
    pub pending_journal_compact_bytes: Option<String>,
    pub debug: Option<String>,
    pub auth_token: Option<String>,
}

/// Decimal digits only.
pub open spec fn all_digits(s: Seq<char>) -> bool {
    forall|i: int| 0 <= i < s.len() ==> '0' <= #[trigger] s[i] <= '9'
}

/// The number that decimal digits spell.
pub open spec fn digits_value(s: Seq<char>) -> nat
    decreases s.len(),
{
    if s.len() == 0 {
        0
    } else {
        (10 * digits_value(s.drop_last()) + (s.last() as int - '0' as int)) as nat
    }
}

/// `s` without one `+` at its start.
pub open spec fn without_plus(s: Seq<char>) -> Seq<char> {
    if s.len() > 0 && s[0] == '+' {
        s.skip(1)
    } else {
        s
    }
}

/// The number that a text stands for: one or more decimal digits, with or
/// without one `+` before them.
pub open spec fn parsed_number(s: Seq<char>) -> Option<nat> {
    let digits = without_plus(s);
    if digits.len() > 0 && all_digits(digits) {
        Some(digits_value(digits))
    } else {
        None
    }
}

/// The number that an optional text stands for where it is at most `max`,
/// `default` otherwise.
pub open spec fn number_or(value: Option<Seq<char>>, max: nat, default: nat) -> nat {
    match value {
        Some(s) => match parsed_number(s) {
            Some(n) => if n <= max {
                n
            } else {
                default
            },
            None => default,
        },
        None => default,
    }
}

proof fn lemma_digits_value_grows(s: Seq<char>, k: int)
    requires
        all_digits(s),
        0 <= k <= s.len(),
    ensures
        digits_value(s.take(k)) <= digits_value(s),
    decreases s.len() - k,
{
    if k < s.len() {
        lemma_digits_value_grows(s, k + 1);
        assert(s.take(k + 1).drop_last() == s.take(k));
        assert(s.take(k + 1).last() == s[k]);
    } else {
        assert(s.take(k) == s);
    }
}

/// The number that `value` spells, where it spells one of at most `max`.
fn parse_up_to(value: &str, max: u64) -> (r: Option<u64>)
    ensures
        r == match parsed_number(value@) {
            Some(n) => if n <= max {
                Some(n as u64)
            } else {
                None
            },
            None => None,
        },
{
    let chars = chars_of(value);
    let start: usize = if chars.len() > 0 && chars[0] == '+' {
        1
    } else {
        0
    };
    let ghost digits = without_plus(value@);
    assert(digits == chars@.skip(start as int));
    if chars.len() == start {
        return None;
    }
    let mut total: u64 = 0;
    let mut i: usize = start;
    while i < chars.len()
        invariant
            start <= i <= chars@.len(),
            chars@.len() > start,
            digits == chars@.skip(start as int),
            digits == without_plus(value@),
            all_digits(digits.take(i - start)),
            total == digits_value(digits.take(i - start)),
            total <= max,
        decreases chars@.len() - i,
    {
        let c: char = chars[i];
        assert(c == digits[i - start]);
        if c < '0' || c > '9' {
            return None;
        }
        let d: u64 = (c as u32 - 48) as u64;
        proof {
            let k = i - start;
            assert(digits.take(k + 1).drop_last() == digits.take(k));
            assert(digits.take(k + 1).last() == c);
            assert(digits_value(digits.take(k + 1)) == 10 * total + d);
            if all_digits(digits) {
                lemma_digits_value_grows(digits, k + 1);
            }
            assert forall|j: int| 0 <= j < k + 1 implies '0' <= #[trigger] digits.take(k + 1)[j]
                <= '9' by {
                if j < k {
                    assert(digits.take(k + 1)[j] == digits.take(k)[j]);
                }
            }
        }
        if total > max / 10 {
            return None;
        }
        if d > max - total * 10 {
            return None;
        }
        total = total * 10 + d;
        i = i + 1;
    }
    assert(digits.take(i - start) == digits);
    Some(total)
}

/// A sixteen bit setting: the number that `value` spells, or `default`.
pub fn env_u16(value: Option<&str>, default: u16) -> (r: u16)
    ensures
        r == number_or(option_str(value), u16::MAX as nat, default as nat),
{
    match value {
        Some(v) => match parse_up_to(v, u16::MAX as u64) {
            Some(n) => n as u16,
            None => default,
        },
        None => default,
    }
}

/// A sixty-four bit setting: the number that `value` spells, or `default`.
pub fn env_u64(value: Option<&str>, default: u64) -> (r: u64)
    ensures
        r == number_or(option_str(value), u64::MAX as nat, default as nat),
{
    match value {
        Some(v) => match parse_up_to(v, u64::MAX) {
            Some(n) => n,
            None => default,
        },
        None => default,
    }
}

/// A size: the number that `value` spells, or `default`.
pub fn env_usize(value: Option<&str>, default: usize) -> (r: usize)
    ensures
        r == number_or(option_str(value), usize::MAX as nat, default as nat),
{
    match value {
        Some(v) => match parse_up_to(v, usize::MAX as u64) {
            Some(n) => n as usize,
            None => default,
        },
        None => default,
    }
}

/// The texts that switch a setting on.
pub open spec fn switched_on(s: Seq<char>) -> bool {
    s == "1"@ || s == "true"@ || s == "TRUE"@ || s == "yes"@ || s == "YES"@
}

/// The switch that an optional text stands for.
pub open spec fn switch_or(value: Option<Seq<char>>, default: bool) -> bool {
    match value {
        Some(s) => switched_on(s),
        None => default,
    }
}

/// A switch: on for one of five texts, off for any other, `default` where it is
/// not set.
pub fn env_bool(value: Option<&str>, default: bool) -> (r: bool)
    ensures
        r == switch_or(option_str(value), default),
{
    match value {
        Some(v) => same_text(v, "1") || same_text(v, "true") || same_text(v, "TRUE") || same_text(
            v,
            "yes",
        ) || same_text(v, "YES"),
        None => default,
    }
}

/// The text, or `default` where there is none.
pub open spec fn text_or(value: Option<Seq<char>>, default: Seq<char>) -> Seq<char> {
    match value {
        Some(s) => s,
        None => default,
    }
}

fn env_text(value: Option<String>, default: &str) -> (r: String)
    ensures
        r@ == text_or(option_text(value), default@),
{
    match value {
        Some(s) => s,
        None => default.to_owned(),
    }
}

fn as_text(value: &Option<String>) -> (r: Option<&str>)
    ensures
        option_str(r) == option_text(*value),
{
    match value {
        Some(s) => Some(s.as_str()),
        None => None,
    }
}

/// `n` where it lies between `low` and `high`, the nearer of the two elsewhere.
pub open spec fn between(n: nat, low: nat, high: nat) -> nat {
    if n < low {
        low
    } else if n > high {
        high
    } else {
        n
    }
}

fn clamp_usize(n: usize, low: usize, high: usize) -> (r: usize)
    requires
        low <= high,
    ensures
        r == between(n as nat, low as nat, high as nat),
{
    if n < low {
        low
    } else if n > high {
        high
    } else {
        n
    }
}

/// The settings that the environment's values give.
pub open spec fn config_of(v: ConfigVars) -> ConfigModel {
    ConfigModel {
        bind: text_or(option_text(v.bind), "127.0.0.1:28019"@),
        db_driver: text_or(option_text(v.db_driver), "mysql"@),
        db_host: text_or(option_text(v.db_host), "127.0.0.1"@),
        db_port: number_or(option_text(v.db_port), u16::MAX as nat, 3306) as u16,
        db_name: text_or(option_text(v.db_name), "sourcemod"@),
        db_user: text_or(option_text(v.db_user), "root"@),
        db_pass: text_or(option_text(v.db_pass), ""@),
        flush_interval_ms: between(
            number_or(option_text(v.flush_interval_ms), u64::MAX as nat, 500),
            1,
            u64::MAX as nat,
        ) as u64,
        max_batch_rows: between(
            number_or(option_text(v.max_batch_rows), usize::MAX as nat, 500),
            1,
            usize::MAX as nat,
        ) as usize,
        queue_limit: between(
            number_or(option_text(v.queue_limit), usize::MAX as nat, 50_000),
            1,
            1_000_000,
        ) as usize,
        require_localhost: switch_or(option_text(v.require_localhost), true),
        max_frame_bytes: between(
            number_or(
                option_text(v.max_frame_bytes),
                usize::MAX as nat,
                DEFAULT_MAX_FRAME_BYTES as nat,
            ),
            1024,
            1_048_576,
        ) as usize,
        max_inbound_events: between(
            number_or(
                option_text(v.max_inbound_events),
                usize::MAX as nat,
                DEFAULT_MAX_INBOUND_EVENTS as nat,
            ),
            1,
            4096,
        ) as usize,
        dedupe_events: between(
            number_or(
                option_text(v.dedupe_events),
                usize::MAX as nat,
                DEFAULT_DEDUPE_EVENTS as nat,
            ),
            0,
            1_000_000,
        ) as usize,
        pending_journal_compact_bytes: number_or(
            option_text(v.pending_journal_compact_bytes),
            u64::MAX as nat,
            DEFAULT_PENDING_JOURNAL_COMPACT_BYTES as nat,
        ) as u64,
        debug: switch_or(option_text(v.debug), false),
        auth_token: text_or(option_text(v.auth_token), ""@),
    }
}

impl Config {
    /// The settings that the environment's values give.
    pub fn from_env(vars: ConfigVars) -> (config: Config)
        ensures
            config@ == config_of(vars),
    {
        let flush_interval_ms: u64 = env_u64(as_text(&vars.flush_interval_ms), 500);
        Config {
            db_port: env_u16(as_text(&vars.db_port), 3306),
            flush_interval_ms: if flush_interval_ms < 1 {
                1
            } else {
                flush_interval_ms
            },
            max_batch_rows: clamp_usize(
                env_usize(as_text(&vars.max_batch_rows), 500),
                1,
                usize::MAX,
            ),
            queue_limit: clamp_usize(
                env_usize(as_text(&vars.queue_limit), 50_000),
                1,
                1_000_000,
            ),
            require_localhost: env_bool(as_text(&vars.require_localhost), true),
            max_frame_bytes: clamp_usize(
                env_usize(as_text(&vars.max_frame_bytes), DEFAULT_MAX_FRAME_BYTES),
                1024,
                1_048_576,
            ),
            max_inbound_events: clamp_usize(
                env_usize(as_text(&vars.max_inbound_events), DEFAULT_MAX_INBOUND_EVENTS),
                1,
                4096,
            ),
            dedupe_events: clamp_usize(
                env_usize(as_text(&vars.dedupe_events), DEFAULT_DEDUPE_EVENTS),
                0,
                1_000_000,
            ),
            pending_journal_compact_bytes: env_u64(
                as_text(&vars.pending_journal_compact_bytes),
                DEFAULT_PENDING_JOURNAL_COMPACT_BYTES,
            ),
            debug: env_bool(as_text(&vars.debug), false),
            bind: env_text(vars.bind, "127.0.0.1:28019"),
            db_driver: env_text(vars.db_driver, "mysql"),
            db_host: env_text(vars.db_host, "127.0.0.1"),
            db_name: env_text(vars.db_name, "sourcemod"),
            db_user: env_text(vars.db_user, "root"),
            db_pass: env_text(vars.db_pass, ""),
            auth_token: env_text(vars.auth_token, ""),
        }
    }
}

/// The path that a setting gives; nothing where it is blank, which switches the
/// file off.
pub open spec fn path_or_off(value: Option<Seq<char>>, default: Seq<char>) -> Option<Seq<char>> {
    let path = text_or(value, default);
    if blank(path) {
        None
    } else {
        Some(path)
    }
}

fn file_path(value: Option<String>, default: &str) -> (path: Option<String>)
    ensures
        option_text(path) == path_or_off(option_text(value), default@),
{
    let path = env_text(value, default);
    if is_blank(path.as_str()) {
        None
    } else {
        Some(path)
    }
}

/// The file for rejected journal records.
pub fn dead_letter_path(value: Option<String>) -> (path: Option<String>)
    ensures
        option_text(path) == path_or_off(option_text(value), "statistics_dead_letters.log"@),
{
    file_path(value, "statistics_dead_letters.log")
}

/// The file of the pending journal.
pub fn pending_journal_path(value: Option<String>) -> (path: Option<String>)
    ensures
        option_text(path) == path_or_off(option_text(value), "statistics_pending_journal.log"@),
{
    file_path(value, "statistics_pending_journal.log")
}

/// The code of `c` with the ASCII capitals as small letters.
pub open spec fn ascii_lower(c: char) -> int {
    if 'A' <= c <= 'Z' {
        c as int + 32
    } else {
        c as int
    }
}

/// Equal but for the case of ASCII letters.
pub open spec fn same_ignoring_case(a: Seq<char>, b: Seq<char>) -> bool {
    &&& a.len() == b.len()
    &&& forall|i: int| 0 <= i < a.len() ==> ascii_lower(#[trigger] a[i]) == ascii_lower(b[i])
}

fn lower_code(c: char) -> (r: u32)
    ensures
        r == ascii_lower(c),
{
    if 'A' <= c && c <= 'Z' {
        c as u32 + 32
    } else {
        c as u32
    }
}

/// Whether the database driver is the one that the service knows.
pub fn is_supported_driver(driver: &str) -> (r: bool)
    ensures
        r == same_ignoring_case(driver@, "mysql"@),
{
    let a = chars_of(driver);
    let b = chars_of("mysql");
    if a.len() != b.len() {
        return false;
    }
    for i in 0..a.len()
        invariant
            a@ == driver@,
            b@ == "mysql"@,
            a@.len() == b@.len(),
            forall|j: int| 0 <= j < i ==> ascii_lower(#[trigger] a@[j]) == ascii_lower(b@[j]),
    {
        if lower_code(a[i]) != lower_code(b[i]) {
            return false;
        }
    }
    true
}

/// Whether senders have to show a token.
pub open spec fn auth_required(token: Seq<char>) -> bool {
    !blank(token)
}

/// Whether what a sender shows lets it in.
pub open spec fn auth_matches(token: Seq<char>, provided: Option<Seq<char>>) -> bool {
    auth_required(token) ==> provided == Some(token)
}

/// Whether senders have to show a token.
pub fn protocol_auth_required(config: &Config) -> (r: bool)
    ensures
        r == auth_required(config@.auth_token),
{
    !is_blank(config.auth_token.as_str())
}

/// Whether what a sender shows lets it in: anything where no token is set, and
/// the token itself where one is.
pub fn protocol_auth_matches(config: &Config, provided: Option<&str>) -> (r: bool)
    ensures
        r == auth_matches(config@.auth_token, option_str(provided)),
{
    if !protocol_auth_required(config) {
        return true;
    }
    match provided {
        Some(p) => same_text(p, config.auth_token.as_str()),
        None => false,
    }
}

/// The address of a peer.
#[derive(Clone, Copy, Debug, PartialEq, Eq)]
pub enum PeerIp {
    /// The four octets of an IPv4 address.
    V4([u8; 4]),
    /// The eight sixteen bit groups of an IPv6 address.
    V6([u16; 8]),
}

/// `127.0.0.0/8` and `::1`.
pub open spec fn loopback(ip: PeerIp) -> bool {
    match ip {
        PeerIp::V4(octets) => octets@[0] == 127,
        PeerIp::V6(groups) => groups@ == seq![0u16, 0u16, 0u16, 0u16, 0u16, 0u16, 0u16, 1u16],
    }
}

/// Whether the address is a loopback address.
pub fn is_loopback(ip: PeerIp) -> (r: bool)
    ensures
        r == loopback(ip),
{
    match ip {
        PeerIp::V4(octets) => octets[0] == 127,
        PeerIp::V6(groups) => {
            let r: bool = groups[0] == 0 && groups[1] == 0 && groups[2] == 0 && groups[3] == 0
                && groups[4] == 0 && groups[5] == 0 && groups[6] == 0 && groups[7] == 1;
            assert(r ==> groups@ =~= seq![0u16, 0u16, 0u16, 0u16, 0u16, 0u16, 0u16, 1u16]);
            r
        },
    }
}

/// Whatever the environment holds, the settings that bound the service are within
/// their own bounds: nothing of it is without a limit, and nothing is switched
/// off that has to be on.
pub proof fn law_settings_are_bounded(v: ConfigVars)
    ensures
        ({
            let config = config_of(v);
            &&& 1 <= config.flush_interval_ms
            &&& 1 <= config.max_batch_rows
            &&& 1 <= config.queue_limit <= 1_000_000
            &&& 1024 <= config.max_frame_bytes <= 1_048_576
            &&& 1 <= config.max_inbound_events <= 4096
            &&& config.dedupe_events <= 1_000_000
        }),
{
}

proof fn lemma_decimal_reads_back(n: nat)
    ensures
        decimal(n).len() > 0,
        all_digits(decimal(n)),
        digits_value(decimal(n)) == n,
    decreases n,
{
    let s = decimal(n);
    if n < 10 {
        assert(s.drop_last() =~= Seq::empty());
        assert(digits_value(s.drop_last()) == 0);
    } else {
        lemma_decimal_reads_back(n / 10);
        assert(s.drop_last() =~= decimal(n / 10));
    }
}

/// A numeral stands for the number that it was written for, with or without a `+`
/// and whatever zeros stand before it; a text with anything but digits behind the
/// sign stands for none.
pub proof fn law_numerals_read_back(n: nat, s: Seq<char>)
    ensures
        parsed_number(decimal(n)) == Some(n),
        parsed_number(seq!['+'] + decimal(n)) == Some(n),
        all_digits(s) && s.len() > 0 ==> parsed_number(seq!['0'] + s) == parsed_number(s),
        parsed_number(s) is Some <==> ({
            ||| s.len() > 0 && forall|i: int| 0 <= i < s.len() ==> '0' <= #[trigger] s[i] <= '9'
            ||| s.len() > 1 && s[0] == '+' && forall|i: int|
                1 <= i < s.len() ==> '0' <= #[trigger] s[i] <= '9'
        }),
{
    lemma_decimal_reads_back(n);
    let d = decimal(n);
    assert('0' <= d[0] <= '9');
    assert((seq!['+'] + d).skip(1) =~= d);
    if all_digits(s) && s.len() > 0 {
        let z = seq!['0'] + s;
        assert('0' <= s[0] <= '9');
        assert(all_digits(z));
        lemma_leading_zero(s);
    }
    if s.len() > 0 && s[0] == '+' {
        let digits = s.skip(1);
        if digits.len() > 0 && all_digits(digits) {
            assert forall|i: int| 1 <= i < s.len() implies '0' <= #[trigger] s[i] <= '9' by {
                assert(s[i] == digits[i - 1]);
            }
        }
    }
}

proof fn lemma_leading_zero(s: Seq<char>)
    ensures
        digits_value(seq!['0'] + s) == digits_value(s),
    decreases s.len(),
{
    let z = seq!['0'] + s;
    if s.len() == 0 {
        assert(z.drop_last() =~= Seq::empty());
        assert(digits_value(z.drop_last()) == 0);
    } else {
        assert(z.drop_last() =~= seq!['0'] + s.drop_last());
        lemma_leading_zero(s.drop_last());
    }
}

/// A text setting is what its own variable holds, whatever that is, and has its
/// default only where the variable is not set.
pub proof fn law_texts_come_from_their_variables(v: ConfigVars)
    ensures
        v.bind matches Some(s) ==> config_of(v).bind == s@,
        v.bind is None ==> config_of(v).bind == "127.0.0.1:28019"@,
        v.db_driver matches Some(s) ==> config_of(v).db_driver == s@,
        v.db_driver is None ==> config_of(v).db_driver == "mysql"@,
        v.db_host matches Some(s) ==> config_of(v).db_host == s@,
        v.db_host is None ==> config_of(v).db_host == "127.0.0.1"@,
        v.db_name matches Some(s) ==> config_of(v).db_name == s@,
        v.db_name is None ==> config_of(v).db_name == "sourcemod"@,
        v.db_user matches Some(s) ==> config_of(v).db_user == s@,
        v.db_user is None ==> config_of(v).db_user == "root"@,
        v.db_pass matches Some(s) ==> config_of(v).db_pass == s@,
        v.db_pass is None ==> config_of(v).db_pass == ""@,
        v.auth_token matches Some(s) ==> config_of(v).auth_token == s@,
        v.auth_token is None ==> config_of(v).auth_token == ""@,
{
}

/// A number setting is what its own variable spells, brought within the bounds of
/// that setting, and has its default where the variable is not set or spells no
/// number that the setting can hold.
pub proof fn law_numbers_come_from_their_variables(v: ConfigVars, n: nat)
    ensures
        v.db_port matches Some(s) ==> parsed_number(s@) == Some(n) && 0 <= n <= u16::MAX
            ==> config_of(v).db_port == n,
        v.db_port matches Some(s) ==> parsed_number(s@) == Some(n) && n > u16::MAX
            ==> config_of(v).db_port == 3306,
        v.db_port is None ==> config_of(v).db_port == 3306,
        v.db_port matches Some(s) ==> parsed_number(s@) is None ==> config_of(v).db_port == 3306,
        v.flush_interval_ms matches Some(s) ==> parsed_number(s@) == Some(n) && 1 <= n <= u64::MAX
            ==> config_of(v).flush_interval_ms == n,
        v.flush_interval_ms matches Some(s) ==> parsed_number(s@) == Some(n) && n < 1
            ==> config_of(v).flush_interval_ms == 1,
        v.flush_interval_ms matches Some(s) ==> parsed_number(s@) == Some(n) && n > u64::MAX
            ==> config_of(v).flush_interval_ms == 500,
        v.flush_interval_ms is None ==> config_of(v).flush_interval_ms == 500,
        v.flush_interval_ms matches Some(s) ==> parsed_number(s@) is None
            ==> config_of(v).flush_interval_ms == 500,
        v.max_batch_rows matches Some(s) ==> parsed_number(s@) == Some(n) && 1 <= n <= usize::MAX
            ==> config_of(v).max_batch_rows == n,
        v.max_batch_rows matches Some(s) ==> parsed_number(s@) == Some(n) && n < 1
            ==> config_of(v).max_batch_rows == 1,
        v.max_batch_rows matches Some(s) ==> parsed_number(s@) == Some(n) && n > usize::MAX
            ==> config_of(v).max_batch_rows == 500,
        v.max_batch_rows is None ==> config_of(v).max_batch_rows == 500,
        v.max_batch_rows matches Some(s) ==> parsed_number(s@) is None
            ==> config_of(v).max_batch_rows == 500,
        v.queue_limit matches Some(s) ==> parsed_number(s@) == Some(n) && 1 <= n <= 1_000_000
            ==> config_of(v).queue_limit == n,
        v.queue_limit matches Some(s) ==> parsed_number(s@) == Some(n) && n < 1
            ==> config_of(v).queue_limit == 1,
        v.queue_limit matches Some(s)
            ==> parsed_number(s@) == Some(n) && 1_000_000 < n <= usize::MAX
            ==> config_of(v).queue_limit == 1_000_000,
        v.queue_limit matches Some(s) ==> parsed_number(s@) == Some(n) && n > usize::MAX
            ==> config_of(v).queue_limit == 50_000,
        v.queue_limit is None ==> config_of(v).queue_limit == 50_000,
        v.queue_limit matches Some(s) ==> parsed_number(s@) is None
            ==> config_of(v).queue_limit == 50_000,
        v.max_frame_bytes matches Some(s) ==> parsed_number(s@) == Some(n) && 1024 <= n <= 1_048_576
            ==> config_of(v).max_frame_bytes == n,
        v.max_frame_bytes matches Some(s) ==> parsed_number(s@) == Some(n) && n < 1024
            ==> config_of(v).max_frame_bytes == 1024,
        v.max_frame_bytes matches Some(s)
            ==> parsed_number(s@) == Some(n) && 1_048_576 < n <= usize::MAX
            ==> config_of(v).max_frame_bytes == 1_048_576,
        v.max_frame_bytes matches Some(s) ==> parsed_number(s@) == Some(n) && n > usize::MAX
            ==> config_of(v).max_frame_bytes == 32_768,
        v.max_frame_bytes is None ==> config_of(v).max_frame_bytes == 32_768,
        v.max_frame_bytes matches Some(s) ==> parsed_number(s@) is None
            ==> config_of(v).max_frame_bytes == 32_768,
        v.max_inbound_events matches Some(s) ==> parsed_number(s@) == Some(n) && 1 <= n <= 4096
            ==> config_of(v).max_inbound_events == n,
        v.max_inbound_events matches Some(s) ==> parsed_number(s@) == Some(n) && n < 1
            ==> config_of(v).max_inbound_events == 1,
        v.max_inbound_events matches Some(s)
            ==> parsed_number(s@) == Some(n) && 4096 < n <= usize::MAX
            ==> config_of(v).max_inbound_events == 4096,
        v.max_inbound_events matches Some(s) ==> parsed_number(s@) == Some(n) && n > usize::MAX
            ==> config_of(v).max_inbound_events == 512,
        v.max_inbound_events is None ==> config_of(v).max_inbound_events == 512,
        v.max_inbound_events matches Some(s) ==> parsed_number(s@) is None
            ==> config_of(v).max_inbound_events == 512,
        v.dedupe_events matches Some(s) ==> parsed_number(s@) == Some(n) && 0 <= n <= 1_000_000
            ==> config_of(v).dedupe_events == n,
        v.dedupe_events matches Some(s)
            ==> parsed_number(s@) == Some(n) && 1_000_000 < n <= usize::MAX
            ==> config_of(v).dedupe_events == 1_000_000,
        v.dedupe_events matches Some(s) ==> parsed_number(s@) == Some(n) && n > usize::MAX
            ==> config_of(v).dedupe_events == 65_536,
        v.dedupe_events is None ==> config_of(v).dedupe_events == 65_536,
        v.dedupe_events matches Some(s) ==> parsed_number(s@) is None
            ==> config_of(v).dedupe_events == 65_536,
        v.pending_journal_compact_bytes matches Some(s)
            ==> parsed_number(s@) == Some(n) && 0 <= n <= u64::MAX
            ==> config_of(v).pending_journal_compact_bytes == n,
        v.pending_journal_compact_bytes matches Some(s)
            ==> parsed_number(s@) == Some(n) && n > u64::MAX
            ==> config_of(v).pending_journal_compact_bytes == 16_777_216,
        v.pending_journal_compact_bytes is None
            ==> config_of(v).pending_journal_compact_bytes == 16_777_216,
        v.pending_journal_compact_bytes matches Some(s) ==> parsed_number(s@) is None
            ==> config_of(v).pending_journal_compact_bytes == 16_777_216,
{
    law_numerals_read_back(n, Seq::empty());
}

/// A switch is on exactly where its own variable holds one of five words, and has
/// its default where the variable is not set.
pub proof fn law_switches_come_from_their_variables(v: ConfigVars)
    ensures
        v.require_localhost is None ==> config_of(v).require_localhost,
        v.debug is None ==> !config_of(v).debug,
        v.require_localhost matches Some(s) ==> (config_of(v).require_localhost <==> (s@ == "1"@
            || s@ == "true"@ || s@ == "TRUE"@ || s@ == "yes"@ || s@ == "YES"@)),
        v.debug matches Some(s) ==> (config_of(v).debug <==> (s@ == "1"@ || s@ == "true"@ || s@
            == "TRUE"@ || s@ == "yes"@ || s@ == "YES"@)),
{
}

/// Where the token is nothing but white space anyone is let in; where it is not,
/// exactly who shows that token, character for character.
pub proof fn law_token_is_compared_as_it_is(token: Seq<char>, provided: Option<Seq<char>>)
    ensures
        auth_matches(token, provided) <==> ({
            ||| forall|i: int| 0 <= i < token.len() ==> white_space(#[trigger] token[i])
            ||| provided == Some(token)
        }),
{
    law_trim_takes_off_white_space(token);
}

/// Loopback addresses are those of `127.0.0.0/8` and `::1`.
pub proof fn law_loopback_addresses(octets: [u8; 4], groups: [u16; 8])
    ensures
        loopback(PeerIp::V4(octets)) <==> octets@[0] == 127,
        loopback(PeerIp::V6(groups)) <==> groups@[7] == 1 && forall|i: int|
            0 <= i < 7 ==> #[trigger] groups@[i] == 0,
{
    let one = seq![0u16, 0u16, 0u16, 0u16, 0u16, 0u16, 0u16, 1u16];
    if groups@ == one {
        assert(groups@[7] == one[7]);
        assert forall|i: int| 0 <= i < 7 implies #[trigger] groups@[i] == 0 by {
            assert(one[i] == 0);
        }
    }
    if groups@[7] == 1 && (forall|i: int| 0 <= i < 7 ==> #[trigger] groups@[i] == 0) {
        assert(groups@ =~= one);
    }
}

/// A file is at the path that is set, at its default where none is, and switched
/// off by a path that is nothing but white space.
pub proof fn law_paths_are_kept(path: Seq<char>, default: Seq<char>)
    ensures
        path_or_off(Some(path), default) == if forall|i: int|
            0 <= i < path.len() ==> white_space(#[trigger] path[i]) {
            None
        } else {
            Some(path)
        },
        path_or_off(None, default) == path_or_off(Some(default), default),
{
    law_trim_takes_off_white_space(path);
}

/// Two texts are the same but for case where each two characters are equal, or the
/// capital and the small form of one ASCII letter.
pub proof fn law_case_of_letters(a: Seq<char>, b: Seq<char>)
    ensures
        same_ignoring_case(a, b) <==> a.len() == b.len() && forall|i: int|
            0 <= i < a.len() ==> {
                ||| #[trigger] a[i] == b[i]
                ||| 'A' <= a[i] <= 'Z' && b[i] as int == a[i] as int + 32
                ||| 'A' <= b[i] <= 'Z' && a[i] as int == b[i] as int + 32
            },
{
    if same_ignoring_case(a, b) {
        assert forall|i: int| 0 <= i < a.len() implies {
            ||| #[trigger] a[i] == b[i]
            ||| 'A' <= a[i] <= 'Z' && b[i] as int == a[i] as int + 32
            ||| 'A' <= b[i] <= 'Z' && a[i] as int == b[i] as int + 32
        } by {
            assert(ascii_lower(a[i]) == ascii_lower(b[i]));
        }
    }
}

/// The view of the settings holds each setting as it is.
pub proof fn law_config_view(config: Config)
    ensures
        config@.bind == config.bind@,
        config@.db_driver == config.db_driver@,
        config@.db_host == config.db_host@,
        config@.db_name == config.db_name@,
        config@.db_user == config.db_user@,
        config@.db_pass == config.db_pass@,
        config@.auth_token == config.auth_token@,
        config@.db_port == config.db_port,
        config@.flush_interval_ms == config.flush_interval_ms,
        config@.max_batch_rows == config.max_batch_rows,
        config@.queue_limit == config.queue_limit,
        config@.require_localhost == config.require_localhost,
        config@.max_frame_bytes == config.max_frame_bytes,
        config@.max_inbound_events == config.max_inbound_events,
        config@.dedupe_events == config.dedupe_events,
        config@.pending_journal_compact_bytes == config.pending_journal_compact_bytes,
        config@.debug == config.debug,
{
}

/// A number is the one that its text stands for where it is not too large, and a
/// switch is on for five texts; where there is no text, and for a number where
/// there is none in it, the default counts.
pub proof fn law_settings_have_defaults(
    s: Seq<char>,
    n: nat,
    max: nat,
    default: nat,
    default_switch: bool,
)
    ensures
        number_or(None, max, default) == default,
        n <= max ==> number_or(Some(decimal(n)), max, default) == n,
        n > max ==> number_or(Some(decimal(n)), max, default) == default,
        parsed_number(s) is None ==> number_or(Some(s), max, default) == default,
        parsed_number(s) matches Some(m) ==> m <= max ==> number_or(Some(s), max, default) == m,
        parsed_number(s) matches Some(m) ==> m > max ==> number_or(Some(s), max, default)
            == default,
        switch_or(None, default_switch) == default_switch,
        switch_or(Some(s), default_switch) <==> (s == "1"@ || s == "true"@ || s == "TRUE"@ || s
            == "yes"@ || s == "YES"@),
{
    law_numerals_read_back(n, s);
}

/// One more digit makes ten times the number and the digit.
pub proof fn law_digits_count_by_ten(s: Seq<char>, d: char)
    requires
        s.len() > 0,
        forall|i: int| 0 <= i < s.len() ==> '0' <= #[trigger] s[i] <= '9',
        '0' <= d <= '9',
    ensures
        parsed_number(seq![d]) == Some((d as int - '0' as int) as nat),
        parsed_number(s) matches Some(n) && parsed_number(s.push(d)) == Some(
            (10 * n + (d as int - '0' as int)) as nat,
        ),
{
    assert('0' <= s[0] <= '9');
    assert(s.push(d).drop_last() =~= s);
    assert(all_digits(s.push(d)));
    assert(seq![d].drop_last() =~= Seq::empty());
    assert(digits_value(seq![d].drop_last()) == 0);
    assert(all_digits(seq![d]));
}

} // verus!
