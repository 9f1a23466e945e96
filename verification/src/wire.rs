//! The quote server's line protocol.
//!
//! A request is `user_id,stock_symbol\n`; the server answers one line of
//! five comma-separated fields: `quote,sym,user_id,timestamp,cryptokey`.
//! This module builds request lines, parses response lines into a
//! [`QuoteResponse`], and offers a fake quote server that answers any
//! request from randomness, for running the system without the real
//! collaborator.

use vstd::prelude::*;
use vstd::seq_lib::*;
use vstd::string::StrSliceExecFns;
use vstd::string::StringExecFns;

use crate::money::{spec_digits_of, spec_parse_cents, spec_parse_u64, parse_cents, parse_u64,
    u64_to_string};

verus! {

/// One quote as the wire carries it: the price in cents, the echoed symbol
/// and user, the server's clock, and its cryptographic receipt.
#[derive(Debug, Clone, PartialEq, Eq)]
pub struct QuoteResponse {
    pub quote: u64,
    pub sym: String,
    pub user_id: String,
    pub timestamp: u64,
    pub crypto_key: String,
}

/// A string split at every comma; always at least one field.
pub open spec fn split_commas(s: Seq<char>) -> Seq<Seq<char>>
    decreases s.len(),
    via split_commas_decreases
{
    match s.index_of_first(',') {
        None => seq![s],
        Some(i) => seq![s.take(i)] + split_commas(s.skip(i + 1)),
    }
}

#[via_fn]
proof fn split_commas_decreases(s: Seq<char>) {
    s.index_of_first_ensures(',');
}

/// Split a line at every comma.
pub fn split_commas_exec(s: &str) -> (r: Vec<String>)
    ensures
        r.deep_view() == split_commas(s@),
        r@.len() >= 1,
    decreases s@.len(),
{
    proof {
        s@.index_of_first_ensures(',');
    }
    let n = s.unicode_len();
    let mut i: usize = 0;
    while i < n
        invariant
            n == s@.len(),
            i <= n,
            forall|j: int| 0 <= j < i ==> s@[j] != ',',
        decreases n - i,
    {
        if s.get_char(i) == ',' {
            proof {
                s@.index_of_first_ensures(',');
                assert(s@.contains(',')) by {
                    assert(s@[i as int] == ',');
                }
                let d = s@.index_of_first(',')->Some_0;
                assert(s@[d] == ',');
                assert(d >= i);
                assert(s@.index_of_first(',') == Some(i as int));
            }
            let head = s.substring_char(0, i).to_owned();
            let tail = s.substring_char(i + 1, n);
            proof {
                assert(head@ =~= s@.take(i as int));
                assert(tail@ =~= s@.skip(i as int + 1));
            }
            let rest = split_commas_exec(tail);
            let mut r: Vec<String> = Vec::new();
            r.push(head);
            let mut rest = rest;
            let ghost r1 = r.deep_view();
            r.append(&mut rest);
            proof {
                assert(r.deep_view() =~= split_commas(s@)) by {
                    assert(split_commas(s@) == seq![s@.take(i as int)] + split_commas(
                        s@.skip(i as int + 1),
                    ));
                }
            }
            return r;
        }
        i += 1;
    }
    proof {
        assert(s@.index_of_first(',') is None) by {
            if s@.contains(',') {
                let d = s@.index_of_first(',')->Some_0;
                assert(s@[d] == ',');
            }
        }
    }
    let mut r: Vec<String> = Vec::new();
    r.push(s.to_owned());
    proof {
        assert(r.deep_view() =~= seq![s@]);
    }
    r
}

/// The request line for a symbol lookup: the user id, a comma, the symbol,
/// and a newline.
pub fn make_socket_message(user_id: String, stock_symbol: &str) -> (r: String)
    ensures
        r@ == user_id@ + seq![','] + stock_symbol@ + seq!['\n'],
{
    proof {
        reveal_strlit(",");
        reveal_strlit("\n");
    }
    let ghost u0 = user_id@;
    let mut r = user_id;
    r.append(",");
    r.append(stock_symbol);
    r.append("\n");
    proof {
        assert(r@ =~= u0 + seq![','] + stock_symbol@ + seq!['\n']);
    }
    r
}

/// Parse one line from the quote server. On success the result carries the
/// price in cents, the echoed symbol and user id, the server timestamp and
/// the crypto key, field for field.
pub fn response_from_quote_server_string(line: &str) -> (r: Result<QuoteResponse, String>)
    ensures
        match r {
            Ok(q) => {
                let fs = split_commas(line@);
                &&& fs.len() >= 5
                &&& spec_parse_cents(fs[0]) == Some(q.quote)
                &&& q.sym@ == fs[1]
                &&& q.user_id@ == fs[2]
                &&& spec_parse_u64(fs[3]) == Some(q.timestamp)
                &&& q.crypto_key@ == fs[4]
            },
            Err(_) => {
                let fs = split_commas(line@);
                fs.len() < 5 || spec_parse_cents(fs[0]) is None || spec_parse_u64(fs[3]) is None
            },
        },
{
    let mut fields = split_commas_exec(line);
    if fields.len() < 5 {
        return Err("invalid response from quote server: too few fields".to_owned());
    }
    proof {
        assert(fields.deep_view()[0] == fields@[0]@);
        assert(fields.deep_view()[1] == fields@[1]@);
        assert(fields.deep_view()[2] == fields@[2]@);
        assert(fields.deep_view()[3] == fields@[3]@);
        assert(fields.deep_view()[4] == fields@[4]@);
    }
    let quote = match parse_cents(fields[0].as_str()) {
        Some(q) => q,
        None => {
            return Err("invalid response from quote server: bad quote".to_owned());
        },
    };
    let timestamp = match parse_u64(fields[3].as_str()) {
        Some(t) => t,
        None => {
            return Err("invalid response from quote server: bad timestamp".to_owned());
        },
    };
    let crypto_key = fields.remove(4);
    fields.remove(3);
    let user_id = fields.remove(2);
    let sym = fields.remove(1);
    Ok(QuoteResponse { quote, sym, user_id, timestamp, crypto_key })
}

// ---------------------------------------------------------------------------
// The fake quote server.
// ---------------------------------------------------------------------------

/// Relies on `rand::rng` and `RngExt::random_range`: a uniformly random
/// value inside the given range, here the fake server's price band.
#[verifier::external_body]
fn random_price() -> (r: u64)
    ensures
        50 <= r < 300,
{
    rand::RngExt::random_range(&mut rand::rng(), 50u64..300u64)
}

/// An ASCII letter or digit, the alphabet the crypto key is drawn from.
pub open spec fn is_alphanumeric_char(c: char) -> bool {
    ||| '0' as u32 <= c as u32 && c as u32 <= '9' as u32
    ||| 'A' as u32 <= c as u32 && c as u32 <= 'Z' as u32
    ||| 'a' as u32 <= c as u32 && c as u32 <= 'z' as u32
}

/// Relies on `rand::distr::SampleString::sample_string` with the
/// `Alphanumeric` distribution: a string of exactly the requested number of
/// random characters, each drawn from the ASCII letters and digits.
#[verifier::external_body]
fn random_crypto_key() -> (r: String)
    ensures
        r@.len() == 57,
        forall|i: int| 0 <= i < r@.len() ==> is_alphanumeric_char(#[trigger] r@[i]),
{
    rand::distr::SampleString::sample_string(&rand::distr::Alphanumeric, &mut rand::rng(), 57)
}

/// Relies on `std::time::SystemTime::duration_since` of the Unix epoch: the
/// wall clock as milliseconds, capped at the representable range. Nothing
/// can be promised of the clock's value.
#[verifier::external_body]
fn now_unix_millis() -> u64 {
    match std::time::SystemTime::now().duration_since(std::time::UNIX_EPOCH) {
        Ok(d) => u64::try_from(d.as_millis()).unwrap_or(u64::MAX),
        Err(_) => 0,
    }
}

/// The request fields of a message the fake server accepts: a user id and a
/// symbol separated by one comma, with an optional trailing newline.
pub open spec fn fake_request_fields(m: Seq<char>) -> Option<(Seq<char>, Seq<char>)> {
    let trimmed = if m.len() > 0 && m.last() == '\n' {
        m.drop_last()
    } else {
        m
    };
    let fs = split_commas(trimmed);
    if fs.len() == 2 {
        Some((fs[0], fs[1]))
    } else {
        None
    }
}

/// The line the fake server answers with: price, symbol, user, timestamp
/// and key, comma-separated.
pub open spec fn fake_response_text(
    price: u64,
    ticker: Seq<char>,
    user: Seq<char>,
    ts: u64,
    key: Seq<char>,
) -> Seq<char> {
    spec_digits_of(price as nat) + seq![','] + ticker + seq![','] + user + seq![',']
        + spec_digits_of(ts as nat) + seq![','] + key
}

/// A quote server stand-in that answers every request from randomness: the
/// last written request line is answered with a random price in the fake
/// band, the wall clock, and a random 57-character key.
pub struct FakeQuoteServer {
    pub sent: Option<String>,
}

impl FakeQuoteServer {
    /// A fake server with no request pending.
    pub fn new() -> (r: FakeQuoteServer)
        ensures
            r.sent is None,
    {
        FakeQuoteServer { sent: None }
    }

    /// Accept one request line, replacing any unanswered one.
    pub fn write_message(&mut self, message: String)
        ensures
            final(self).sent == Some(message),
    {
        self.sent = Some(message);
    }

    /// Answer the pending request, if any: a well-formed `user,ticker` line
    /// gets a quote line with some price in the fake band, some timestamp,
    /// and some 57-character key; anything else gets the error line. The
    /// request is consumed either way.
    pub fn read_response(&mut self) -> (r: Option<String>)
        ensures
            final(self).sent is None,
            match old(self).sent {
                None => r is None,
                Some(m) => match fake_request_fields(m@) {
                    Some(fields) => r matches Some(resp) && exists|p: u64, ts: u64, key: Seq<char>|
                        50 <= p < 300 && key.len() == 57 && (forall|i: int|
                            0 <= i < key.len() ==> is_alphanumeric_char(#[trigger] key[i]))
                            && resp@ == fake_response_text(p, fields.1, fields.0, ts, key),
                    None => r matches Some(resp) && resp@ == "error - bad request"@,
                },
            },
    {
        let m = match self.sent.take() {
            None => {
                return None;
            },
            Some(m) => m,
        };
        let ghost mv = m@;
        let n = m.as_str().unicode_len();
        let line = if n > 0 && m.as_str().get_char(n - 1) == '\n' {
            m.as_str().substring_char(0, n - 1)
        } else {
            m.as_str()
        };
        let ghost lv = line@;
        proof {
            if mv.len() > 0 && mv.last() == '\n' {
                assert(lv =~= mv.drop_last());
            } else {
                assert(lv == mv);
            }
        }
        let mut fields = split_commas_exec(line);
        if fields.len() != 2 {
            proof {
                assert(fields.deep_view().len() == fields@.len());
                assert(split_commas(lv).len() != 2);
                assert(fake_request_fields(mv) is None);
            }
            return Some("error - bad request".to_owned());
        }
        proof {
            assert(fields.deep_view().len() == fields@.len());
            assert(fields.deep_view()[0] == fields@[0]@);
            assert(fields.deep_view()[1] == fields@[1]@);
        }
        let ticker = fields.remove(1);
        let user = fields.remove(0);
        proof {
            assert(ticker@ == split_commas(lv)[1]);
            assert(user@ == split_commas(lv)[0]);
            assert(fake_request_fields(mv) == Some((user@, ticker@)));
        }
        let price = random_price();
        let ts = now_unix_millis();
        let key = random_crypto_key();
        proof {
            reveal_strlit(",");
        }
        let mut out = u64_to_string(price);
        out.append(",");
        out.append(ticker.as_str());
        out.append(",");
        out.append(user.as_str());
        out.append(",");
        let ts_str = u64_to_string(ts);
        out.append(ts_str.as_str());
        out.append(",");
        out.append(key.as_str());
        proof {
            assert(out@ =~= fake_response_text(price, ticker@, user@, ts, key@));
            assert(50 <= price < 300 && key@.len() == 57);
            let flds = fake_request_fields(mv)->Some_0;
            assert(flds == (user@, ticker@));
            assert(flds.0 == user@ && flds.1 == ticker@);
            assert(50 <= price < 300 && key@.len() == 57 && out@ == fake_response_text(
                price,
                flds.1,
                flds.0,
                ts,
                key@,
            ));
            assert(exists|p: u64, ts2: u64, k: Seq<char>|
                50 <= p < 300 && k.len() == 57 && (forall|i: int|
                    0 <= i < k.len() ==> is_alphanumeric_char(#[trigger] k[i])) && out@
                    == fake_response_text(p, flds.1, flds.0, ts2, k));
        }
        Some(out)
    }
}

} // verus!
