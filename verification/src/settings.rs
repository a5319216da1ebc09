//! User settings as they are stored: each setting is kept as text under its
//! own key, booleans as "true"/"false" and numbers in decimal.
use vstd::prelude::*;
use vstd::string::StringSliceAdditionalSpecFns;
use crate::commands::AppSettings;
use crate::primitives;
use crate::text;

verus! {

/// Whether a byte is a decimal digit.
pub open spec fn is_digit(b: u8) -> bool {
    48 <= b <= 57
}

/// The number the decimal digits `s` spell.
pub open spec fn digits_value(s: Seq<u8>) -> nat
    decreases s.len(),
{
    if s.len() == 0 {
        0
    } else {
        digits_value(s.drop_last()) * 10 + (s.last() - 48) as nat
    }
}

/// What parsing `s` as an unsigned 64-bit decimal gives: an optional `+`,
/// then at least one digit and nothing else, and a value that fits.
pub open spec fn spec_parse_u64(s: Seq<u8>) -> Option<u64> {
    let body = unsigned_body(s);
    if body.len() == 0 || !all_digits(body) {
        None
    } else if digits_value(body) > u64::MAX {
        None
    } else {
        Some(digits_value(body) as u64)
    }
}

/// `s` without a leading `+`.
pub open spec fn unsigned_body(s: Seq<u8>) -> Seq<u8> {
    if s.len() > 0 && s[0] == 43 { s.drop_first() } else { s }
}

/// Whether every byte of `s` is a decimal digit.
pub open spec fn all_digits(s: Seq<u8>) -> bool {
    forall|i: int| 0 <= i < s.len() ==> is_digit(#[trigger] s[i])
}

/// The decimal digits of `n`, without leading zeros.
pub open spec fn decimal(n: nat) -> Seq<u8>
    decreases n,
{
    if n < 10 {
        seq![(48 + n) as u8]
    } else {
        decimal(n / 10).push((48 + n % 10) as u8)
    }
}

proof fn lemma_digits_value_prefix(s: Seq<u8>, i: int)
    requires
        0 <= i <= s.len(),
        forall|j: int| 0 <= j < s.len() ==> is_digit(#[trigger] s[j]),
    ensures
        digits_value(s) >= digits_value(s.take(i)),
    decreases s.len() - i,
{
    if i < s.len() {
        lemma_digits_value_prefix(s, i + 1);
        assert(s.take(i + 1).drop_last() =~= s.take(i));
    } else {
        assert(s.take(i) =~= s);
    }
}

proof fn lemma_decimal(n: nat)
    ensures
        decimal(n).len() >= 1,
        forall|j: int| 0 <= j < decimal(n).len() ==> is_digit(#[trigger] decimal(n)[j]),
        digits_value(decimal(n)) == n,
        decimal(n)[0] != 43,
    decreases n,
{
    if n >= 10 {
        lemma_decimal(n / 10);
        assert(decimal(n).drop_last() =~= decimal(n / 10));
        assert(decimal(n).last() == (48 + n % 10) as u8);
        assert(n == (n / 10) * 10 + n % 10) by (nonlinear_arith);
        assert(((48 + n % 10) as u8 - 48) as nat == n % 10);
        assert(digits_value(decimal(n)) == digits_value(decimal(n / 10)) * 10 + (n % 10));
    } else {
        assert(seq![(48 + n) as u8].drop_last() =~= Seq::<u8>::empty());
        assert(digits_value(decimal(n)) == digits_value(Seq::<u8>::empty()) * 10 + n);
    }
}

/// Parsing the decimal form of a number gives the number back.
pub proof fn lemma_parse_decimal(n: u64)
    ensures
        spec_parse_u64(decimal(n as nat)) == Some(n),
{
    lemma_decimal(n as nat);
}

/// Parse an unsigned 64-bit decimal (see `spec_parse_u64`).
pub fn parse_u64(s: &str) -> (r: Option<u64>)
    ensures
        r == spec_parse_u64(s.spec_bytes()),
{
    parse_u64_bytes(s.as_bytes())
}

/// Parse an unsigned 64-bit decimal from its text's bytes (see
/// `spec_parse_u64`).
pub fn parse_u64_bytes(b: &[u8]) -> (r: Option<u64>)
    ensures
        r == spec_parse_u64(b@),
{
    let ghost sb = b@;
    let start: usize = if b.len() > 0 && b[0] == 43 { 1 } else { 0 };
    let ghost body = if sb.len() > 0 && sb[0] == 43 { sb.drop_first() } else { sb };
    assert(body =~= sb.skip(start as int));
    if b.len() == start {
        return None;
    }
    let mut v: u64 = 0;
    let mut i: usize = start;
    while i < b.len()
        invariant
            start <= i <= b@.len(),
            b@ == sb,
            body == sb.skip(start as int),
            body == unsigned_body(sb),
            body.len() > 0,
            forall|j: int| 0 <= j < i - start ==> is_digit(#[trigger] body[j]),
            v == digits_value(body.take(i - start)),
        decreases b@.len() - i,
    {
        let c = b[i];
        assert(body[i - start] == b@[i as int]);
        if c < 48 || c > 57 {
            assert(!is_digit(body[i - start]));
            assert(!all_digits(body));
            return None;
        }
        assert(body.take(i - start + 1).drop_last() =~= body.take(i - start));
        assert(body.take(i - start + 1).last() == c);
        let d = (c - 48) as u64;
        assert(digits_value(body.take(i - start + 1)) == v * 10 + d);
        match v.checked_mul(10) {
            None => {
                proof {
                    let k = (i - start + 1) as int;
                    assert(digits_value(body.take(k)) >= v * 10);
                    if all_digits(body) {
                        lemma_digits_value_prefix(body, k);
                    }
                }
                return None;
            },
            Some(t) => match t.checked_add(d) {
                None => {
                    proof {
                        let k = (i - start + 1) as int;
                        if all_digits(body) {
                            lemma_digits_value_prefix(body, k);
                        }
                    }
                    return None;
                },
                Some(nv) => {
                    v = nv;
                },
            },
        }
        i = i + 1;
    }
    assert(body.take(i - start) =~= body);
    Some(v)
}

/// The decimal form of `n`.
pub fn format_u64(n: u64) -> (s: String)
    ensures
        s@ == primitives::ascii_chars(decimal(n as nat)),
{
    let mut rev: Vec<u8> = Vec::new();
    let mut m: u64 = n;
    while m >= 10
        invariant
            decimal(n as nat) == decimal(m as nat) + rev@.reverse(),
            forall|i: int| 0 <= i < rev@.len() ==> #[trigger] rev@[i] < 128,
        decreases m,
    {
        let ghost before = rev@;
        rev.push(48 + (m % 10) as u8);
        assert(rev@.reverse() =~= seq![(48 + m % 10) as u8] + before.reverse());
        assert(decimal(m as nat) =~= decimal((m / 10) as nat).push((48 + m % 10) as u8));
        assert(decimal(m as nat) + before.reverse() =~= decimal((m / 10) as nat) + rev@.reverse());
        m = m / 10;
    }
    let ghost before = rev@;
    rev.push(48 + m as u8);
    assert(rev@.reverse() =~= seq![(48 + m) as u8] + before.reverse());
    assert(decimal(n as nat) =~= rev@.reverse());
    let mut out: Vec<u8> = Vec::new();
    let mut j: usize = rev.len();
    while j > 0
        invariant
            j <= rev@.len(),
            out@ == rev@.reverse().take((rev@.len() - j) as int),
            forall|i: int| 0 <= i < rev@.len() ==> #[trigger] rev@[i] < 128,
        decreases j,
    {
        j = j - 1;
        out.push(rev[j]);
        assert(out@ =~= rev@.reverse().take((rev@.len() - j) as int));
    }
    assert(out@ =~= rev@.reverse());
    primitives::ascii_string(out)
}


/// The stored texts of the settings, each absent when never saved.
pub struct StoredSettings {
    pub disappearing_messages_default: Option<String>,
    pub default_ttl_secs: Option<String>,
    pub read_receipts: Option<String>,
    pub typing_indicators: Option<String>,
    pub notifications_enabled: Option<String>,
    pub theme: Option<String>,
}

/// A partial update of the settings: each present field replaces the
/// current value.
pub struct SettingsPatch {
    pub disappearing_messages_default: Option<bool>,
    pub default_ttl_secs: Option<u64>,
    pub read_receipts: Option<bool>,
    pub typing_indicators: Option<bool>,
    pub notifications_enabled: Option<bool>,
    pub theme: Option<String>,
}

/// The settings' values.
pub struct SettingsView {
    pub disappearing_messages_default: bool,
    pub default_ttl_secs: u64,
    pub read_receipts: bool,
    pub typing_indicators: bool,
    pub notifications_enabled: bool,
    pub theme: Seq<char>,
}

/// The values of settings.
pub open spec fn settings_view(s: AppSettings) -> SettingsView {
    SettingsView {
        disappearing_messages_default: s.disappearing_messages_default,
        default_ttl_secs: s.default_ttl_secs,
        read_receipts: s.read_receipts,
        typing_indicators: s.typing_indicators,
        notifications_enabled: s.notifications_enabled,
        theme: s.theme@,
    }
}

/// The defaults: no disappearing messages, an hour's time to live, read
/// receipts, typing indicators and notifications on, the dark theme.
pub open spec fn default_view() -> SettingsView {
    SettingsView {
        disappearing_messages_default: false,
        default_ttl_secs: 3600,
        read_receipts: true,
        typing_indicators: true,
        notifications_enabled: true,
        theme: seq!['d', 'a', 'r', 'k'],
    }
}

/// "true".
pub open spec fn true_text() -> Seq<char> {
    seq!['t', 'r', 'u', 'e']
}

/// "false".
pub open spec fn false_text() -> Seq<char> {
    seq!['f', 'a', 'l', 's', 'e']
}

/// The text a flag is stored as.
pub open spec fn bool_text(b: bool) -> Seq<char> {
    if b { true_text() } else { false_text() }
}

/// A stored flag: true exactly when the text is "true"; the default when
/// absent.
pub open spec fn stored_flag(t: Option<Seq<char>>, default: bool) -> bool {
    match t {
        Some(t) => t == true_text(),
        None => default,
    }
}

/// A stored number: its decimal value when it parses; the default when
/// absent or not a number.
pub open spec fn stored_number(t: Option<Seq<char>>, default: u64) -> u64 {
    match t {
        Some(t) => match spec_parse_u64(vstd::utf8::encode_utf8(t)) {
            Some(v) => v,
            None => default,
        },
        None => default,
    }
}

/// The settings that stored texts describe.
pub open spec fn spec_from_stored(
    d: Option<Seq<char>>, ttl: Option<Seq<char>>, rr: Option<Seq<char>>,
    ty: Option<Seq<char>>, no: Option<Seq<char>>, th: Option<Seq<char>>,
) -> SettingsView {
    let def = default_view();
    SettingsView {
        disappearing_messages_default: stored_flag(d, def.disappearing_messages_default),
        default_ttl_secs: stored_number(ttl, def.default_ttl_secs),
        read_receipts: stored_flag(rr, def.read_receipts),
        typing_indicators: stored_flag(ty, def.typing_indicators),
        notifications_enabled: stored_flag(no, def.notifications_enabled),
        theme: match th {
            Some(t) => t,
            None => def.theme,
        },
    }
}

fn is_true(t: &Option<String>, default: bool) -> (r: bool)
    ensures
        r == stored_flag(text::opt_text(*t), default),
{
    proof { reveal_strlit("true"); }
    assert("true"@ =~= true_text());
    match t {
        Some(s) => primitives::str_eq(s.as_str(), "true"),
        None => default,
    }
}

/// The settings that stored texts describe (see `spec_from_stored`).
pub fn settings_from_stored(stored: &StoredSettings) -> (r: AppSettings)
    ensures
        settings_view(r) == spec_from_stored(
            text::opt_text(stored.disappearing_messages_default), text::opt_text(stored.default_ttl_secs),
            text::opt_text(stored.read_receipts), text::opt_text(stored.typing_indicators),
            text::opt_text(stored.notifications_enabled), text::opt_text(stored.theme),
        ),
{
    proof { reveal_strlit("dark"); }
    assert("dark"@ =~= default_view().theme);
    let defaults = crate::commands::default_settings();
    let ttl = match &stored.default_ttl_secs {
        Some(t) => match parse_u64(t.as_str()) {
            Some(v) => v,
            None => defaults.default_ttl_secs,
        },
        None => defaults.default_ttl_secs,
    };
    let theme = match &stored.theme {
        Some(t) => text::copy_string(t),
        None => defaults.theme,
    };
    AppSettings {
        disappearing_messages_default: is_true(&stored.disappearing_messages_default, defaults.disappearing_messages_default),
        default_ttl_secs: ttl,
        read_receipts: is_true(&stored.read_receipts, defaults.read_receipts),
        typing_indicators: is_true(&stored.typing_indicators, defaults.typing_indicators),
        notifications_enabled: is_true(&stored.notifications_enabled, defaults.notifications_enabled),
        theme,
    }
}

fn flag_text(b: bool) -> (s: String)
    ensures
        s@ == bool_text(b),
{
    proof {
        reveal_strlit("true");
        reveal_strlit("false");
    }
    assert("true"@ =~= true_text());
    assert("false"@ =~= false_text());
    if b { "true".to_string() } else { "false".to_string() }
}

/// The keys settings are stored under, in order.
pub fn setting_keys() -> (r: Vec<&'static str>)
    ensures
        r@.len() == 6,
        r@[0]@ == "disappearing_messages_default"@,
        r@[1]@ == "default_ttl_secs"@,
        r@[2]@ == "read_receipts"@,
        r@[3]@ == "typing_indicators"@,
        r@[4]@ == "notifications_enabled"@,
        r@[5]@ == "theme"@,
{
    let mut r: Vec<&'static str> = Vec::new();
    r.push("disappearing_messages_default");
    r.push("default_ttl_secs");
    r.push("read_receipts");
    r.push("typing_indicators");
    r.push("notifications_enabled");
    r.push("theme");
    r
}

/// The texts the settings are stored as, in the order of `setting_keys`:
/// flags as "true" or "false", the time to live in decimal, the theme as
/// it is.
pub fn settings_to_stored(s: &AppSettings) -> (r: Vec<String>)
    ensures
        r@.len() == 6,
        r@[0]@ == bool_text(s.disappearing_messages_default),
        r@[1]@ == primitives::ascii_chars(decimal(s.default_ttl_secs as nat)),
        r@[2]@ == bool_text(s.read_receipts),
        r@[3]@ == bool_text(s.typing_indicators),
        r@[4]@ == bool_text(s.notifications_enabled),
        r@[5]@ == s.theme@,
{
    let mut r: Vec<String> = Vec::new();
    r.push(flag_text(s.disappearing_messages_default));
    r.push(format_u64(s.default_ttl_secs));
    r.push(flag_text(s.read_receipts));
    r.push(flag_text(s.typing_indicators));
    r.push(flag_text(s.notifications_enabled));
    r.push(text::copy_string(&s.theme));
    r
}

/// The UTF-8 encoding of a decimal's text is its digits.
pub proof fn lemma_decimal_ascii(n: nat)
    ensures
        vstd::utf8::encode_utf8(primitives::ascii_chars(decimal(n))) == decimal(n),
{
    lemma_decimal(n);
    let d = decimal(n);
    let cs = primitives::ascii_chars(d);
    assert(vstd::utf8::is_ascii_chars(cs)) by {
        assert forall|i: int| 0 <= i < cs.len() implies '\0' <= #[trigger] cs[i] <= '\u{7f}' by {
            assert(is_digit(d[i]));
        }
    }
    vstd::utf8::is_ascii_chars_encode_utf8(cs);
    assert(vstd::utf8::encode_utf8(cs) =~= d);
}

/// Saved settings read back are the same settings.
pub proof fn lemma_settings_round_trip(v: SettingsView)
    ensures
        spec_from_stored(
            Some(bool_text(v.disappearing_messages_default)),
            Some(primitives::ascii_chars(decimal(v.default_ttl_secs as nat))),
            Some(bool_text(v.read_receipts)),
            Some(bool_text(v.typing_indicators)),
            Some(bool_text(v.notifications_enabled)),
            Some(v.theme),
        ) == v,
{
    lemma_parse_decimal(v.default_ttl_secs);
    lemma_decimal_ascii(v.default_ttl_secs as nat);
    assert(false_text() != true_text()) by {
        assert(false_text().len() != true_text().len());
    }
}

/// The settings after a patch: each present field replaces the value.
pub fn apply_settings_patch(current: AppSettings, patch: SettingsPatch) -> (r: AppSettings)
    ensures
        r.disappearing_messages_default == (match patch.disappearing_messages_default { Some(v) => v, None => current.disappearing_messages_default }),
        r.default_ttl_secs == (match patch.default_ttl_secs { Some(v) => v, None => current.default_ttl_secs }),
        r.read_receipts == (match patch.read_receipts { Some(v) => v, None => current.read_receipts }),
        r.typing_indicators == (match patch.typing_indicators { Some(v) => v, None => current.typing_indicators }),
        r.notifications_enabled == (match patch.notifications_enabled { Some(v) => v, None => current.notifications_enabled }),
        r.theme == (match patch.theme { Some(v) => v, None => current.theme }),
{
    let mut s = current;
    if let Some(v) = patch.disappearing_messages_default {
        s.disappearing_messages_default = v;
    }
    if let Some(v) = patch.default_ttl_secs {
        s.default_ttl_secs = v;
    }
    if let Some(v) = patch.read_receipts {
        s.read_receipts = v;
    }
    if let Some(v) = patch.typing_indicators {
        s.typing_indicators = v;
    }
    if let Some(v) = patch.notifications_enabled {
        s.notifications_enabled = v;
    }
    if let Some(v) = patch.theme {
        s.theme = v;
    }
    s
}

} // verus!
