use vstd::prelude::*;

verus! {

/// Microseconds in one second.
pub const MICROS_PER_SEC: u128 = 1_000_000;

/// The decimal digit character for `d < 10`.
pub open spec fn digit_char(d: nat) -> char {
    if d == 0 { '0' }
    else if d == 1 { '1' }
    else if d == 2 { '2' }
    else if d == 3 { '3' }
    else if d == 4 { '4' }
    else if d == 5 { '5' }
    else if d == 6 { '6' }
    else if d == 7 { '7' }
    else if d == 8 { '8' }
    else { '9' }
}

/// The decimal notation of `n`, without leading zeros.
pub open spec fn decimal(n: nat) -> Seq<char>
    decreases n,
{
    if n < 10 {
        seq![digit_char(n)]
    } else {
        decimal(n / 10).push(digit_char(n % 10))
    }
}

/// `secs` written as days, hours, minutes and seconds: a component is shown when
/// it is non-zero or a larger one is shown, and seconds are always shown.
pub open spec fn duration_text(secs: nat) -> Seq<char> {
    let days = secs / 86400;
    let hours = (secs % 86400) / 3600;
    let minutes = (secs % 3600) / 60;
    let seconds = secs % 60;
    let s_part = decimal(seconds) + seq!['s'];
    let m_part = decimal(minutes) + seq!['m', ' '] + s_part;
    let h_part = decimal(hours) + seq!['h', ' '] + m_part;
    if days > 0 {
        decimal(days) + seq!['d', ' '] + h_part
    } else if hours > 0 {
        h_part
    } else if minutes > 0 {
        m_part
    } else {
        s_part
    }
}

/// The wall-clock instant, in microseconds since the Unix epoch, of an event that
/// happened `monotonic_us` microseconds after a boot at `boot_time_secs`.
pub open spec fn event_micros(monotonic_us: u64, boot_time_secs: u64) -> int {
    boot_time_secs * 1_000_000 + monotonic_us
}

/// Whole seconds from the event to `now_micros`, zero when the event lies ahead.
pub open spec fn elapsed_secs(monotonic_us: u64, boot_time_secs: u64, now_micros: u128) -> nat {
    let event = event_micros(monotonic_us, boot_time_secs);
    if now_micros > event {
        ((now_micros - event) / 1_000_000) as nat
    } else {
        0
    }
}

/// The largest reading the wall clock can give, in microseconds.
pub open spec fn clock_limit() -> int {
    (u64::MAX as int) * 1_000_000 + 999_999
}

fn digit_str(d: u64) -> (r: &'static str)
    requires
        d < 10,
    ensures
        r@ == seq![digit_char(d as nat)],
{
    proof {
        reveal_strlit("0");
        reveal_strlit("1");
        reveal_strlit("2");
        reveal_strlit("3");
        reveal_strlit("4");
        reveal_strlit("5");
        reveal_strlit("6");
        reveal_strlit("7");
        reveal_strlit("8");
        reveal_strlit("9");
    }
    match d {
        0 => "0",
        1 => "1",
        2 => "2",
        3 => "3",
        4 => "4",
        5 => "5",
        6 => "6",
        7 => "7",
        8 => "8",
        _ => "9",
    }
}

fn push_decimal(out: &mut String, n: u64)
    ensures
        final(out)@ == old(out)@ + decimal(n as nat),
    decreases n,
{
    if n >= 10 {
        push_decimal(out, n / 10);
    }
    out.append(digit_str(n % 10));
    assert(final(out)@ =~= old(out)@ + decimal(n as nat));
}

fn push_component(out: &mut String, n: u64, unit: &str)
    ensures
        final(out)@ == old(out)@ + decimal(n as nat) + unit@,
{
    push_decimal(out, n);
    out.append(unit);
}

/// Formats a number of seconds as days, hours, minutes and seconds, e.g. `2m 5s`.
#[verifier::rlimit(40)]
pub fn format_duration(secs: u64) -> (r: String)
    ensures
        r@ == duration_text(secs as nat),
{
    let days: u64 = secs / 86400;
    let hours: u64 = (secs % 86400) / 3600;
    let minutes: u64 = (secs % 3600) / 60;
    let seconds: u64 = secs % 60;
    proof {
        reveal_strlit("d ");
        reveal_strlit("h ");
        reveal_strlit("m ");
        reveal_strlit("s");
    }
    let mut out = String::new();
    let shown_days = days > 0;
    if shown_days {
        push_component(&mut out, days, "d ");
    }
    let shown_hours = hours > 0 || shown_days;
    if shown_hours {
        push_component(&mut out, hours, "h ");
    }
    let shown_minutes = minutes > 0 || shown_hours;
    if shown_minutes {
        push_component(&mut out, minutes, "m ");
    }
    push_component(&mut out, seconds, "s");
    assert(out@ =~= duration_text(secs as nat));
    out
}

/// The uptime text of an event `monotonic_us` microseconds after a boot at
/// `boot_time_secs` (seconds since the Unix epoch), seen at `now_micros`
/// (microseconds since the Unix epoch).
pub fn uptime_at(monotonic_us: u64, boot_time_secs: u64, now_micros: u128) -> (r: String)
    requires
        now_micros <= clock_limit(),
    ensures
        r@ == duration_text(elapsed_secs(monotonic_us, boot_time_secs, now_micros)),
{
    let event: u128 = boot_time_secs as u128 * MICROS_PER_SEC + monotonic_us as u128;
    let elapsed: u128 = if now_micros > event {
        now_micros - event
    } else {
        0
    };
    let secs: u128 = elapsed / MICROS_PER_SEC;
    assert(secs <= u64::MAX) by {
        assert(elapsed <= clock_limit());
    }
    format_duration(secs as u64)
}

/// Relies on `SystemTime::now`: the current wall-clock time, read as whole
/// microseconds since the Unix epoch, or `None` where the clock stands before
/// the epoch. A `Duration` holds at most `u64::MAX` seconds and less than a
/// second of nanoseconds, which bounds the reading.
#[verifier::external_body]
fn wall_clock_micros() -> (r: Option<u128>)
    ensures
        r matches Some(t) ==> t <= clock_limit(),
{
    std::time::SystemTime::now().duration_since(std::time::UNIX_EPOCH).ok().map(|d| d.as_micros())
}

/// Reads the wall clock; a clock set before the Unix epoch reads as the epoch.
pub fn now_micros() -> (r: u128)
    ensures
        r <= clock_limit(),
{
    match wall_clock_micros() {
        Some(t) => t,
        None => 0,
    }
}

/// Relies on `sysinfo::System::boot_time`: the boot time of the machine in seconds
/// since the Unix epoch. Nothing is promised of the value read.
#[verifier::external_body]
pub fn get_boot_time() -> (r: u64) {
    sysinfo::System::boot_time()
}

/// The uptime text of an event `monotonic_us` microseconds after a boot at
/// `boot_time_secs`, measured against the wall clock now.
pub fn monotonic_uptime(monotonic_us: u64, boot_time_secs: u64) -> (r: String)
    ensures
        exists|now: u128|
            now <= clock_limit() && r@ == duration_text(
                elapsed_secs(monotonic_us, boot_time_secs, now),
            ),
{
    let now = now_micros();
    uptime_at(monotonic_us, boot_time_secs, now)
}

/// A text that holds no minus sign.
pub open spec fn unsigned_text(t: Seq<char>) -> bool {
    forall|i: int| 0 <= i < t.len() ==> #[trigger] t[i] != '-'
}

proof fn lemma_decimal_unsigned(n: nat)
    ensures
        unsigned_text(decimal(n)),
    decreases n,
{
    if n >= 10 {
        lemma_decimal_unsigned(n / 10);
        let p = decimal(n / 10);
        assert forall|i: int| 0 <= i < decimal(n).len() implies #[trigger] decimal(n)[i] != '-' by {
            if i < p.len() {
                assert(decimal(n)[i] == p[i]);
            }
        }
    }
}

proof fn lemma_concat_unsigned(a: Seq<char>, b: Seq<char>)
    requires
        unsigned_text(a),
        unsigned_text(b),
    ensures
        unsigned_text(a + b),
{
    assert forall|i: int| 0 <= i < (a + b).len() implies #[trigger] (a + b)[i] != '-' by {
        if i < a.len() {
            assert((a + b)[i] == a[i]);
        } else {
            assert((a + b)[i] == b[i - a.len()]);
        }
    }
}

/// An uptime text never shows a negative elapsed time: it holds no minus sign,
/// whatever the event time, boot time and clock reading.
pub proof fn lemma_uptime_never_negative(monotonic_us: u64, boot_time_secs: u64, now_micros: u128)
    ensures
        unsigned_text(duration_text(elapsed_secs(monotonic_us, boot_time_secs, now_micros))),
{
    let secs = elapsed_secs(monotonic_us, boot_time_secs, now_micros);
    let d = decimal(secs / 86400);
    let h = decimal((secs % 86400) / 3600);
    let m = decimal((secs % 3600) / 60);
    let s = decimal(secs % 60);
    lemma_decimal_unsigned(secs / 86400);
    lemma_decimal_unsigned((secs % 86400) / 3600);
    lemma_decimal_unsigned((secs % 3600) / 60);
    lemma_decimal_unsigned(secs % 60);
    let s_sfx: Seq<char> = seq!['s'];
    let m_sfx: Seq<char> = seq!['m', ' '];
    let h_sfx: Seq<char> = seq!['h', ' '];
    let d_sfx: Seq<char> = seq!['d', ' '];
    assert(unsigned_text(s_sfx));
    assert(unsigned_text(m_sfx));
    assert(unsigned_text(h_sfx));
    assert(unsigned_text(d_sfx));
    lemma_concat_unsigned(s, s_sfx);
    let s_part = s + s_sfx;
    lemma_concat_unsigned(m, m_sfx);
    lemma_concat_unsigned(m + m_sfx, s_part);
    let m_part = m + m_sfx + s_part;
    lemma_concat_unsigned(h, h_sfx);
    lemma_concat_unsigned(h + h_sfx, m_part);
    let h_part = h + h_sfx + m_part;
    lemma_concat_unsigned(d, d_sfx);
    lemma_concat_unsigned(d + d_sfx, h_part);
}

/// Seen later, the same event has been running at least as long.
pub proof fn lemma_elapsed_monotonic(
    monotonic_us: u64,
    boot_time_secs: u64,
    earlier: u128,
    later: u128,
)
    requires
        earlier <= later,
    ensures
        elapsed_secs(monotonic_us, boot_time_secs, earlier) <= elapsed_secs(
            monotonic_us,
            boot_time_secs,
            later,
        ),
{
    let event = event_micros(monotonic_us, boot_time_secs);
    if later > event && earlier > event {
        vstd::arithmetic::div_mod::lemma_div_is_ordered(
            earlier - event,
            later - event,
            1_000_000,
        );
    }
}

} // verus!
