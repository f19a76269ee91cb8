//! UDP discovery datagrams and the well-known ports.
//!
//! A client broadcasts `PAPERPAD DISCOVER <nonce>\n`; a companion answers
//! `PAPERSPOON HERE <nonce> <tcp-port>\n`. Parsers accept any trailing
//! whitespace and reject text that is not UTF-8.
use crate::text::{
    all_digits, chars_to_string, decimal, has_prefix, is_separator, is_unicode_whitespace,
    lemma_decimal_roundtrip, lemma_parse_decimal, lemma_strip_prefix_concat,
    lemma_tokens_separator_first, lemma_tokens_word_first, lemma_trim_end_unchanged,
    lemma_trim_end_whitespace_suffix, parse_u16, parse_u16_spec, push_decimal, push_str,
    split_tokens, str_to_chars, strip_prefix, sub_chars, tokens, token_views, trim_end,
    trim_end_len, utf8_decode,
};
use vstd::prelude::*;
use vstd::utf8::{decode_utf8, encode_utf8, encode_utf8_decode_utf8, encode_utf8_valid_utf8, valid_utf8};

verus! {

/// Default PaperSpoon TCP listener port.
pub const DEFAULT_TCP_PORT: u16 = 5581;

/// PaperSpoon UDP discovery listener port.
pub const DISCOVERY_PORT: u16 = 5580;

/// PaperPad UDP discovery client port.
pub const DISCOVERY_CLIENT_PORT: u16 = 5582;

/// Prefix for a discovery request datagram.
pub const DISCOVER_PREFIX: &'static str = "PAPERPAD DISCOVER ";

/// Prefix for a discovery response datagram.
pub const HERE_PREFIX: &'static str = "PAPERSPOON HERE ";

/// Text of a discovery request for `nonce`.
pub open spec fn discover_text(nonce: Seq<char>) -> Seq<char> {
    DISCOVER_PREFIX@ + nonce + seq!['\n']
}

/// Text of a discovery response for `nonce` and `tcp_port`.
pub open spec fn here_text(nonce: Seq<char>, tcp_port: u16) -> Seq<char> {
    HERE_PREFIX@ + nonce + seq![' '] + decimal(tcp_port as nat) + seq!['\n']
}

/// The nonce of a discovery request: the datagram is UTF-8, and after
/// trailing whitespace is trimmed it is the request prefix followed by at
/// least one character.
pub open spec fn parse_discover_spec(datagram: Seq<u8>) -> Option<Seq<char>> {
    if !valid_utf8(datagram) {
        None
    } else {
        match strip_prefix(trim_end(decode_utf8(datagram)), DISCOVER_PREFIX@) {
            Some(nonce) => if nonce.len() > 0 {
                Some(nonce)
            } else {
                None
            },
            None => None,
        }
    }
}

/// The nonce and port of a discovery response: the datagram is UTF-8 and,
/// after trailing whitespace is trimmed, the response prefix followed by
/// exactly two whitespace-separated words, the second a non-zero `u16`.
pub open spec fn parse_here_spec(datagram: Seq<u8>) -> Option<(Seq<char>, u16)> {
    if !valid_utf8(datagram) {
        None
    } else {
        match strip_prefix(trim_end(decode_utf8(datagram)), HERE_PREFIX@) {
            Some(rest) => {
                let words = tokens(rest, false);
                if words.len() == 2 {
                    match parse_u16_spec(words[1]) {
                        Some(port) => if port != 0 {
                            Some((words[0], port))
                        } else {
                            None
                        },
                        None => None,
                    }
                } else {
                    None
                }
            },
            None => None,
        }
    }
}

/// Build a newline-terminated discovery request datagram.
pub fn format_discover(nonce: &str) -> (datagram: String)
    ensures
        datagram@ == discover_text(nonce@),
{
    let mut out: Vec<char> = Vec::new();
    push_str(&mut out, DISCOVER_PREFIX);
    push_str(&mut out, nonce);
    out.push('\n');
    assert(out@ =~= discover_text(nonce@));
    chars_to_string(out.as_slice())
}

/// Parse a discovery request datagram into its nonce.
///
/// The nonce is otherwise unvalidated: it may hold spaces.
pub fn parse_discover(datagram: &[u8]) -> (nonce: Option<String>)
    ensures
        match nonce {
            Some(text) => parse_discover_spec(datagram@) == Some(text@),
            None => parse_discover_spec(datagram@) is None,
        },
{
    let text = match utf8_decode(datagram) {
        Some(text) => text,
        None => return None,
    };
    let chars = str_to_chars(text);
    let end = trim_end_len(chars.as_slice());
    let trimmed = sub_chars(chars.as_slice(), 0, end);
    let prefix = str_to_chars(DISCOVER_PREFIX);
    if !has_prefix(trimmed.as_slice(), prefix.as_slice()) {
        return None;
    }
    if trimmed.len() == prefix.len() {
        return None;
    }
    let rest = sub_chars(trimmed.as_slice(), prefix.len(), trimmed.len());
    Some(chars_to_string(rest.as_slice()))
}

/// Build a newline-terminated discovery response datagram.
pub fn format_here(nonce: &str, tcp_port: u16) -> (datagram: String)
    ensures
        datagram@ == here_text(nonce@, tcp_port),
{
    let mut out: Vec<char> = Vec::new();
    push_str(&mut out, HERE_PREFIX);
    push_str(&mut out, nonce);
    out.push(' ');
    push_decimal(&mut out, tcp_port as u64);
    out.push('\n');
    assert(out@ =~= here_text(nonce@, tcp_port));
    chars_to_string(out.as_slice())
}

/// Parse a discovery response into its nonce and advertised TCP port.
pub fn parse_here(datagram: &[u8]) -> (parsed: Option<(String, u16)>)
    ensures
        match parsed {
            Some((nonce, port)) => parse_here_spec(datagram@) == Some((nonce@, port)),
            None => parse_here_spec(datagram@) is None,
        },
{
    let text = match utf8_decode(datagram) {
        Some(text) => text,
        None => return None,
    };
    let chars = str_to_chars(text);
    let end = trim_end_len(chars.as_slice());
    let trimmed = sub_chars(chars.as_slice(), 0, end);
    let prefix = str_to_chars(HERE_PREFIX);
    if !has_prefix(trimmed.as_slice(), prefix.as_slice()) {
        return None;
    }
    let rest = sub_chars(trimmed.as_slice(), prefix.len(), trimmed.len());
    let words = split_tokens(rest.as_slice(), false);
    proof {
        assert(token_views(words@).len() == words@.len());
    }
    if words.len() != 2 {
        return None;
    }
    proof {
        assert(token_views(words@)[0] == words@[0]@);
        assert(token_views(words@)[1] == words@[1]@);
    }
    let port = match parse_u16(words[1].as_slice()) {
        Some(port) => port,
        None => return None,
    };
    if port == 0 {
        return None;
    }
    Some((chars_to_string(words[0].as_slice()), port))
}

/// A request built for a nonce that is non-empty and does not end in
/// whitespace parses back to that nonce.
pub proof fn lemma_discover_roundtrip(nonce: Seq<char>)
    requires
        nonce.len() > 0,
        !is_unicode_whitespace(nonce.last()),
    ensures
        parse_discover_spec(encode_utf8(discover_text(nonce))) == Some(nonce),
{
    let text = discover_text(nonce);
    encode_utf8_valid_utf8(text);
    encode_utf8_decode_utf8(text);
    let body = DISCOVER_PREFIX@ + nonce;
    assert(text =~= body + seq!['\n']);
    lemma_trim_end_whitespace_suffix(body, seq!['\n']);
    assert(body.last() == nonce.last());
    lemma_trim_end_unchanged(body);
    lemma_strip_prefix_concat(DISCOVER_PREFIX@, nonce);
}

/// A response built for a non-empty nonce without whitespace and a non-zero
/// port parses back to that nonce and port.
pub proof fn lemma_here_roundtrip(nonce: Seq<char>, tcp_port: u16)
    requires
        nonce.len() > 0,
        forall|i: int| 0 <= i < nonce.len() ==> !is_unicode_whitespace(#[trigger] nonce[i]),
        tcp_port != 0,
    ensures
        parse_here_spec(encode_utf8(here_text(nonce, tcp_port))) == Some((nonce, tcp_port)),
{
    let text = here_text(nonce, tcp_port);
    encode_utf8_valid_utf8(text);
    encode_utf8_decode_utf8(text);
    let digits = decimal(tcp_port as nat);
    lemma_decimal_roundtrip(tcp_port as nat);
    let rest = nonce + (seq![' '] + digits);
    let body = HERE_PREFIX@ + rest;
    assert(text =~= body + seq!['\n']);
    lemma_trim_end_whitespace_suffix(body, seq!['\n']);
    assert(body.last() == digits.last());
    assert(digits.last() == digits[digits.len() - 1]);
    lemma_trim_end_unchanged(body);
    lemma_strip_prefix_concat(HERE_PREFIX@, rest);
    assert forall|i: int| 0 <= i < digits.len() implies !is_separator(
        #[trigger] digits[i],
        false,
    ) by {
        assert(all_digits(digits));
    }
    lemma_tokens_word_first(digits, Seq::empty(), false);
    assert(digits + Seq::<char>::empty() =~= digits);
    lemma_tokens_separator_first(' ', digits, false);
    assert((seq![' '] + digits)[0] == ' ');
    lemma_tokens_word_first(nonce, seq![' '] + digits, false);
    let words = tokens(rest, false);
    assert(words =~= seq![nonce, digits]);
    lemma_parse_decimal(tcp_port as nat);
}

} // verus!
