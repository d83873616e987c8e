//! From a song to something the media player can open: the address of the
//! search, and the address to play for what the search found.

use vstd::prelude::*;
use vstd::string::StringExecFns;
use vstd::utf8::encode_utf8;

verus! {

/// What the search address puts before the search terms.
pub const SEARCH_URL_HEAD: &'static str = "https://yt.lemnoslife.com/search?part=id,snippet&q=";

/// What the search address puts after the search terms.
pub const SEARCH_URL_TAIL: &'static str = "&type=video";

/// What the address of a video puts before the video's id.
pub const WATCH_URL_HEAD: &'static str = "https://www.youtube.com/watch?v=";

/// What is played where the search found no video.
pub const FALLBACK_URL: &'static str = "https://github.com/satler-git/tt/releases/download/v2.0.1/error.wav";

/// `b` is an ASCII letter or digit.
pub open spec fn is_ascii_alphanumeric(b: u8) -> bool {
    ||| 0x30 <= b <= 0x39
    ||| 0x41 <= b <= 0x5a
    ||| 0x61 <= b <= 0x7a
}

/// The upper-case hexadecimal digit for `n`, which is below 16.
pub open spec fn hex_digit(n: int) -> char
    recommends
        0 <= n < 16,
{
    if n < 10 {
        ((0x30 + n) as u8) as char
    } else {
        ((0x41 + n - 10) as u8) as char
    }
}

/// One byte, percent-encoded: itself where it is an ASCII letter or digit,
/// else `%` and its two hexadecimal digits.
pub open spec fn percent_encoded_byte(b: u8) -> Seq<char> {
    if is_ascii_alphanumeric(b) {
        seq![b as char]
    } else {
        seq!['%', hex_digit(b as int / 16), hex_digit(b as int % 16)]
    }
}

/// A run of bytes, percent-encoded byte by byte.
pub open spec fn percent_encoded(bytes: Seq<u8>) -> Seq<char>
    decreases bytes.len(),
{
    if bytes.len() == 0 {
        Seq::empty()
    } else {
        percent_encoded(bytes.drop_last()) + percent_encoded_byte(bytes.last())
    }
}

/// `c` is an ASCII letter, an ASCII digit or `%`.
pub open spec fn is_unreserved(c: char) -> bool {
    c == '%' || (c as u32 <= 0x7f && is_ascii_alphanumeric(c as u8))
}

/// Percent-encoded text holds ASCII letters, digits and `%` only: no space,
/// and none of the characters that part a query, such as `+`, `&`, `=` or `#`.
pub proof fn lemma_percent_encoded_is_unreserved(bytes: Seq<u8>)
    ensures
        forall|i: int|
            0 <= i < percent_encoded(bytes).len() ==> is_unreserved(
                #[trigger] percent_encoded(bytes)[i],
            ),
    decreases bytes.len(),
{
    if bytes.len() > 0 {
        lemma_percent_encoded_is_unreserved(bytes.drop_last());
        let head = percent_encoded(bytes.drop_last());
        let b = bytes.last();
        let tail = percent_encoded_byte(b);
        assert(is_unreserved(hex_digit(b as int / 16)));
        assert(is_unreserved(hex_digit(b as int % 16)));
        if is_ascii_alphanumeric(b) {
            assert(is_unreserved(b as char));
        }
        assert forall|i: int| 0 <= i < percent_encoded(bytes).len() implies is_unreserved(
            #[trigger] percent_encoded(bytes)[i],
        ) by {
            if i < head.len() {
                assert(percent_encoded(bytes)[i] == head[i]);
            } else {
                assert(percent_encoded(bytes)[i] == tail[i - head.len()]);
            }
        }
    }
}

/// The address to ask for videos of the song `song_name` by `artist_name`.
pub open spec fn search_url_spec(song_name: Seq<char>, artist_name: Seq<char>) -> Seq<char> {
    SEARCH_URL_HEAD@ + percent_encoded(encode_utf8(song_name)) + seq!['+'] + percent_encoded(
        encode_utf8(artist_name),
    ) + SEARCH_URL_TAIL@
}

/// Percent-encodes `text` through the percent-encoding crate:
/// `utf8_percent_encode` with the set `NON_ALPHANUMERIC`, written out as a
/// string.
///
/// Trusted, not proved: each byte of the UTF-8 encoding of `text` stands for
/// itself where it is an ASCII letter or digit, and is replaced by `%` and
/// its two upper-case hexadecimal digits otherwise.
#[verifier::external_body]
fn percent_encode(text: &str) -> (r: String)
    ensures
        r@ == percent_encoded(encode_utf8(text@)),
{
    percent_encoding::utf8_percent_encode(text, percent_encoding::NON_ALPHANUMERIC).to_string()
}

/// The search address for two search terms that are percent-encoded already.
pub fn search_url_of_encoded(song_name: &str, artist_name: &str) -> (url: String)
    ensures
        url@ == SEARCH_URL_HEAD@ + song_name@ + seq!['+'] + artist_name@ + SEARCH_URL_TAIL@,
{
    let mut url = String::from_str(SEARCH_URL_HEAD);
    url.append(song_name);
    url.append("+");
    proof {
        reveal_strlit("+");
        assert("+"@ =~= seq!['+']);
    }
    url.append(artist_name);
    url.append(SEARCH_URL_TAIL);
    url
}

/// The address to ask for videos of a song: the two search terms,
/// percent-encoded, joined by `+`.
pub fn search_url(song_name: &str, artist_name: &str) -> (url: String)
    ensures
        url@ == search_url_spec(song_name@, artist_name@),
{
    let name = percent_encode(song_name);
    let artist = percent_encode(artist_name);
    search_url_of_encoded(name.as_str(), artist.as_str())
}

/// The address to play for the videos that a search found: that of the first
/// video, or the fallback where there is none.
pub open spec fn media_url_spec(video_ids: Seq<Seq<char>>) -> Seq<char> {
    if video_ids.len() > 0 {
        WATCH_URL_HEAD@ + video_ids[0]
    } else {
        FALLBACK_URL@
    }
}

/// The strings of `texts` as sequences of characters, in order.
pub open spec fn texts(texts: Seq<String>) -> Seq<Seq<char>> {
    texts.map_values(|s: String| s@)
}

/// The address to play for the videos that a search found, given by their
/// ids in the order of the answer. A search that found nothing is no failure:
/// the fallback is played.
pub fn media_url(video_ids: &Vec<String>) -> (url: String)
    ensures
        url@ == media_url_spec(texts(video_ids@)),
{
    if video_ids.len() > 0 {
        let mut url = String::from_str(WATCH_URL_HEAD);
        url.append(video_ids[0].as_str());
        url
    } else {
        String::from_str(FALLBACK_URL)
    }
}

} // verus!
