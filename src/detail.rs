use vstd::prelude::*;
use vstd::utf8::{decode_utf8, valid_utf8};

use crate::model::{ServiceConfig, ServiceDetail};

verus! {

/// What `ansi_to_html::convert` makes of a text: markup in which colour and style
/// escape codes have become tags and special characters are escaped, or `None`
/// where it rejects an escape code.
pub uninterp spec fn ansi_html(text: Seq<char>) -> Option<Seq<char>>;

/// Relies on `String::from_utf8`: it accepts exactly the valid UTF-8 byte strings
/// and decodes them.
#[verifier::external_body]
fn decode_output(raw: Vec<u8>) -> (r: Option<String>)
    ensures
        r is Some <==> valid_utf8(raw@),
        r matches Some(s) ==> s@ == decode_utf8(raw@),
{
    String::from_utf8(raw).ok()
}

/// Relies on `ansi_to_html::convert`: the markup of a text, or an error for an
/// escape code that it cannot read; the result depends on the text alone.
#[verifier::external_body]
fn ansi_to_markup(text: &str) -> (r: Option<String>)
    ensures
        r is Some <==> ansi_html(text@) is Some,
        r matches Some(m) ==> ansi_html(text@) == Some(m@),
{
    ansi_to_html::convert(text).ok()
}

/// The markup of a command's output: it must be UTF-8, and its escape codes must
/// be readable.
pub open spec fn markup_of(raw: Seq<u8>) -> Option<Seq<char>> {
    if valid_utf8(raw) {
        ansi_html(decode_utf8(raw))
    } else {
        None
    }
}

/// The markup of an answer, `None` where the query failed or its output has no
/// markup.
pub open spec fn answer_markup(answer: Option<Vec<u8>>) -> Option<Seq<char>> {
    match answer {
        Some(raw) => markup_of(raw@),
        None => None,
    }
}

/// Turns a command's output into markup; invalid UTF-8 or an unreadable escape
/// code is a failure, not a truncation.
pub fn command_markup(raw: Vec<u8>) -> (r: Option<String>)
    ensures
        r is Some <==> markup_of(raw@) is Some,
        r matches Some(m) ==> markup_of(raw@) == Some(m@),
{
    match decode_output(raw) {
        Some(text) => ansi_to_markup(text.as_str()),
        None => None,
    }
}

/// Why the detail of a service could not be given.
#[derive(Clone, Copy, Debug, PartialEq, Eq, Structural)]
pub enum DetailError {
    /// The status report could not be read or turned into markup.
    StatusQuery,
    /// The log was asked for and could not be read or turned into markup.
    LogQuery,
}

/// The detail of a service from the output of its status query and, where the
/// configuration shows logs, of its log query (`None` where a query failed). A
/// service whose logs are hidden gets an empty log, whatever was passed for it.
pub fn fetch_detail(
    config: &ServiceConfig,
    status_output: Option<Vec<u8>>,
    log_output: Option<Vec<u8>>,
) -> (r: Result<ServiceDetail, DetailError>)
    ensures
        r == Err::<ServiceDetail, DetailError>(DetailError::StatusQuery) <==> answer_markup(
            status_output,
        ) is None,
        r == Err::<ServiceDetail, DetailError>(DetailError::LogQuery) <==> answer_markup(
            status_output,
        ) is Some && config.show_logs && answer_markup(log_output) is None,
        r matches Ok(d) ==> d.config == *config && answer_markup(status_output) == Some(
            d.status_text@,
        ) && (if config.show_logs {
            answer_markup(log_output) == Some(d.log_text@)
        } else {
            d.log_text@ == Seq::<char>::empty()
        }),
{
    let status_text = match status_output {
        Some(raw) => match command_markup(raw) {
            Some(m) => m,
            None => {
                return Err(DetailError::StatusQuery);
            },
        },
        None => {
            return Err(DetailError::StatusQuery);
        },
    };
    let log_text = if config.show_logs {
        match log_output {
            Some(raw) => match command_markup(raw) {
                Some(m) => m,
                None => {
                    return Err(DetailError::LogQuery);
                },
            },
            None => {
                return Err(DetailError::LogQuery);
            },
        }
    } else {
        String::new()
    };
    Ok(ServiceDetail { config: config.duplicate(), status_text, log_text })
}

/// The position of the first configuration entry named exactly `service_name`.
pub open spec fn first_named(configs: Seq<ServiceConfig>, service_name: Seq<char>) -> Option<int>
    decreases configs.len(),
{
    if configs.len() == 0 {
        None
    } else {
        match first_named(configs.drop_last(), service_name) {
            Some(i) => Some(i),
            None => if configs.last().service_name@ == service_name {
                Some(configs.len() - 1)
            } else {
                None
            },
        }
    }
}

proof fn lemma_first_named_prefix(configs: Seq<ServiceConfig>, service_name: Seq<char>, n: int)
    requires
        0 <= n <= configs.len(),
        first_named(configs.subrange(0, n), service_name) is Some,
    ensures
        first_named(configs, service_name) == first_named(configs.subrange(0, n), service_name),
    decreases configs.len(),
{
    if n < configs.len() {
        let p = configs.drop_last();
        assert(p =~= configs.subrange(0, configs.len() - 1));
        assert(p.subrange(0, n) =~= configs.subrange(0, n));
        lemma_first_named_prefix(p, service_name, n);
    } else {
        assert(configs.subrange(0, n) =~= configs);
    }
}

/// The configuration entry named exactly `service_name`, the first if several are.
pub fn find_service_config(service_name: &String, configs: &Vec<ServiceConfig>) -> (r: Option<
    usize,
>)
    ensures
        r matches Some(i) ==> first_named(configs@, service_name@) == Some(i as int) && i
            < configs@.len(),
        r is None ==> first_named(configs@, service_name@) is None,
{
    let mut i: usize = 0;
    while i < configs.len()
        invariant
            i <= configs@.len(),
            first_named(configs@.subrange(0, i as int), service_name@) is None,
        decreases configs@.len() - i,
    {
        let found = configs[i].service_name.eq(service_name);
        proof {
            let p = configs@.subrange(0, i + 1);
            assert(p.drop_last() =~= configs@.subrange(0, i as int));
        }
        if found {
            proof {
                lemma_first_named_prefix(configs@, service_name@, i + 1);
            }
            return Some(i);
        }
        i = i + 1;
    }
    assert(configs@.subrange(0, i as int) =~= configs@);
    None
}

} // verus!
