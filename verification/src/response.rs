//! Wire framing of a quote for the stream and the datagram transports.

use crate::store::QuoteStore;
use vstd::prelude::*;
use vstd::string::StringSliceAdditionalSpecFns;
use vstd::utf8::encode_utf8;

verus! {

/// The line feed byte that opens and closes every response.
pub const LINE_FEED: u8 = 0x0a;

/// The byte that ends a datagram response.
pub const NUL: u8 = 0x00;

/// A quote framed for a stream: a line feed, the quote, two line feeds.
pub open spec fn stream_frame(quote: Seq<u8>) -> Seq<u8> {
    seq![LINE_FEED] + quote + seq![LINE_FEED, LINE_FEED]
}

/// A quote framed for a datagram: the stream frame followed by one NUL byte.
pub open spec fn datagram_frame(quote: Seq<u8>) -> Seq<u8> {
    stream_frame(quote).push(NUL)
}

/// Renders `quote` as it is written to a TCP or TLS connection.
pub fn format_stream(quote: &str) -> (out: Vec<u8>)
    ensures
        out@ == stream_frame(quote.spec_bytes()),
{
    let bytes = quote.as_bytes();
    let mut out: Vec<u8> = Vec::new();
    out.push(LINE_FEED);
    let mut i: usize = 0;
    while i < bytes.len()
        invariant
            i <= bytes@.len(),
            out@ == seq![LINE_FEED] + bytes@.subrange(0, i as int),
        decreases bytes@.len() - i,
    {
        out.push(bytes[i]);
        i += 1;
    }
    assert(bytes@.subrange(0, i as int) == bytes@);
    out.push(LINE_FEED);
    out.push(LINE_FEED);
    out
}

/// Renders `quote` as it is sent in a UDP datagram.
pub fn format_datagram(quote: &str) -> (out: Vec<u8>)
    ensures
        out@ == datagram_frame(quote.spec_bytes()),
{
    let mut out = format_stream(quote);
    out.push(NUL);
    out
}

/// Whether `bytes` is the stream frame of one of `quotes`.
pub open spec fn answers_stream(quotes: Seq<Seq<char>>, bytes: Seq<u8>) -> bool {
    exists|i: int|
        0 <= i < quotes.len() && bytes == stream_frame(encode_utf8(#[trigger] quotes[i]))
}

/// Whether `bytes` is the datagram frame of one of `quotes`.
pub open spec fn answers_datagram(quotes: Seq<Seq<char>>, bytes: Seq<u8>) -> bool {
    exists|i: int|
        0 <= i < quotes.len() && bytes == datagram_frame(encode_utf8(#[trigger] quotes[i]))
}

/// The bytes to write to a newly accepted TCP or TLS connection: one quote
/// of `store`, drawn at random, in its stream frame.
pub fn stream_response(store: &QuoteStore) -> (out: Vec<u8>)
    ensures
        answers_stream(store@, out@),
{
    let quote = store.get_random_entry();
    let ghost i = store@.index_of(quote@);
    assert(store@[i] == quote@);
    format_stream(quote.as_str())
}

/// The bytes to send back for a received datagram: one quote of `store`,
/// drawn at random, in its datagram frame.
pub fn datagram_response(store: &QuoteStore) -> (out: Vec<u8>)
    ensures
        answers_datagram(store@, out@),
{
    let quote = store.get_random_entry();
    let ghost i = store@.index_of(quote@);
    assert(store@[i] == quote@);
    format_datagram(quote.as_str())
}

/// The shape of a stream frame: it opens with one line feed, closes with
/// two, and holds the quote, unchanged, between them.
pub proof fn lemma_stream_frame_shape(quote: Seq<u8>)
    ensures
        stream_frame(quote).len() == quote.len() + 3,
        stream_frame(quote).first() == LINE_FEED,
        stream_frame(quote)[quote.len() as int + 1] == LINE_FEED,
        stream_frame(quote).last() == LINE_FEED,
        stream_frame(quote).subrange(1, quote.len() as int + 1) == quote,
{
    assert(stream_frame(quote).subrange(1, quote.len() as int + 1) =~= quote);
}

/// The shape of a datagram frame: the stream frame of the same quote,
/// followed by a single NUL byte.
pub proof fn lemma_datagram_frame_shape(quote: Seq<u8>)
    ensures
        datagram_frame(quote).len() == quote.len() + 4,
        datagram_frame(quote).last() == NUL,
        datagram_frame(quote).drop_last() == stream_frame(quote),
        datagram_frame(quote) != stream_frame(quote),
{
    assert(datagram_frame(quote).drop_last() =~= stream_frame(quote));
}

/// A frame holds exactly one quote: two quotes with the same frame are the
/// same quote.
pub proof fn lemma_frames_tell_quotes_apart(a: Seq<u8>, b: Seq<u8>)
    ensures
        stream_frame(a) == stream_frame(b) ==> a == b,
        datagram_frame(a) == datagram_frame(b) ==> a == b,
{
    lemma_stream_frame_shape(a);
    lemma_stream_frame_shape(b);
    lemma_datagram_frame_shape(a);
    lemma_datagram_frame_shape(b);
}

} // verus!
