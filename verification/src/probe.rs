use vstd::prelude::*;

use sha2::Digest;

use crate::text::{append_chars, chars_eq_str, chars_of, copy_string, hex_char, hex_fixed, hex_fixed_chars, string_from_chars};

verus! {

/// One stream of an ffprobe report, as far as the summary reads it.
pub struct StreamInfo {
    pub codec_type: Option<String>,
    pub codec_name: Option<String>,
    pub width: Option<i64>,
    pub height: Option<i64>,
}

/// Codecs and frame size of a media file.
#[derive(Debug)]
pub struct StreamSummary {
    pub video_codec: Option<String>,
    pub audio_codec: Option<String>,
    pub width: Option<i64>,
    pub height: Option<i64>,
}

pub open spec fn opt_text(o: Option<String>) -> Option<Seq<char>> {
    match o {
        Some(s) => Some(s@),
        None => None,
    }
}

pub open spec fn is_kind(s: StreamInfo, kind: Seq<char>) -> bool {
    match s.codec_type {
        Some(t) => t@ == kind,
        None => kind.len() == 0,
    }
}

/// The summary after reading `streams` in order: the first video stream with
/// a codec name gives the video codec and frame size (a video stream seen
/// while none is known overwrites them), the first audio stream with a codec
/// name the audio codec.
pub open spec fn spec_summary(streams: Seq<StreamInfo>) -> (Option<Seq<char>>, Option<Seq<char>>, Option<i64>, Option<i64>)
    decreases streams.len(),
{
    if streams.len() == 0 {
        (None, None, None, None)
    } else {
        let (v, a, w, h) = spec_summary(streams.drop_last());
        let s = streams.last();
        if is_kind(s, "video"@) && v is None {
            (opt_text(s.codec_name), a, s.width, s.height)
        } else if is_kind(s, "audio"@) && a is None {
            (v, opt_text(s.codec_name), w, h)
        } else {
            (v, a, w, h)
        }
    }
}

fn kind_is(s: &StreamInfo, kind: &str) -> (r: bool)
    requires
        kind@.len() > 0,
    ensures
        r == is_kind(*s, kind@),
{
    match &s.codec_type {
        Some(t) => crate::text::str_eq(t.as_str(), kind),
        None => false,
    }
}

fn copy_opt(o: &Option<String>) -> (r: Option<String>)
    ensures
        opt_text(r) == opt_text(*o),
{
    match o {
        Some(s) => Some(copy_string(s)),
        None => None,
    }
}

/// The stream part of `run_ffprobe_summary`.
pub fn summarize_streams(streams: &Vec<StreamInfo>) -> (r: StreamSummary)
    ensures
        (opt_text(r.video_codec), opt_text(r.audio_codec), r.width, r.height) == spec_summary(streams@),
{
    proof {
        reveal_strlit("video");
        reveal_strlit("audio");
    }
    let mut out = StreamSummary { video_codec: None, audio_codec: None, width: None, height: None };
    let mut i: usize = 0;
    while i < streams.len()
        invariant
            i <= streams.len(),
            "video"@.len() > 0,
            "audio"@.len() > 0,
            (opt_text(out.video_codec), opt_text(out.audio_codec), out.width, out.height) == spec_summary(
                streams@.take(i as int),
            ),
        decreases streams.len() - i,
    {
        assert(streams@.take(i + 1).drop_last() =~= streams@.take(i as int));
        assert(streams@.take(i + 1).last() == streams@[i as int]);
        let s = &streams[i];
        if kind_is(s, "video") && out.video_codec.is_none() {
            out.video_codec = copy_opt(&s.codec_name);
            out.width = s.width;
            out.height = s.height;
        } else if kind_is(s, "audio") && out.audio_codec.is_none() {
            out.audio_codec = copy_opt(&s.codec_name);
        }
        i += 1;
    }
    assert(streams@.take(streams.len() as int) =~= streams@);
    out
}

/// Lower-case hexadecimal of a digest, two digits per byte (`{:x}`).
pub open spec fn spec_hex_bytes(bytes: Seq<u8>) -> Seq<char>
    decreases bytes.len(),
{
    if bytes.len() == 0 {
        seq![]
    } else {
        spec_hex_bytes(bytes.drop_last()) + hex_fixed(bytes.last() as nat, 2)
    }
}

pub fn digest_hex(bytes: &Vec<u8>) -> (r: String)
    ensures
        r@ == spec_hex_bytes(bytes@),
{
    let mut out: Vec<char> = Vec::new();
    let mut i: usize = 0;
    while i < bytes.len()
        invariant
            i <= bytes.len(),
            out@ == spec_hex_bytes(bytes@.take(i as int)),
        decreases bytes.len() - i,
    {
        assert(bytes@.take(i + 1).drop_last() =~= bytes@.take(i as int));
        assert(bytes@.take(i + 1).last() == bytes@[i as int]);
        let h = hex_fixed_chars(bytes[i] as u64, 2);
        append_chars(&mut out, &h);
        i += 1;
    }
    assert(bytes@.take(bytes.len() as int) =~= bytes@);
    string_from_chars(&out)
}

/// A running SHA-256 computation over a media file's content.  The
/// `sha2::Sha256` inside is opaque; what the proofs know of it is the bytes
/// fed so far (`content_fed`).
#[verifier::external_body]
pub struct ContentHasher {
    inner: sha2::Sha256,
}

/// The bytes fed to a content hasher so far.
pub uninterp spec fn content_fed(h: ContentHasher) -> Seq<u8>;

/// The SHA-256 digest of a byte sequence.
pub uninterp spec fn sha256_digest(data: Seq<u8>) -> Seq<u8>;

/// `sha2::Sha256::new` (through `Digest::new`): a hasher that has been fed
/// nothing.
#[verifier::external_body]
fn sha256_start() -> (h: ContentHasher)
    ensures
        content_fed(h) == Seq::<u8>::empty(),
{
    ContentHasher { inner: sha2::Sha256::new() }
}

/// `Digest::update` on a `Sha256`: the chunk is appended to what the hasher
/// has been fed.
#[verifier::external_body]
fn sha256_feed(h: &mut ContentHasher, chunk: &[u8])
    ensures
        content_fed(*final(h)) == content_fed(*old(h)) + chunk@,
{
    h.inner.update(chunk);
}

/// `Digest::finalize` on a `Sha256`: the 32-byte digest of everything fed.
#[verifier::external_body]
fn sha256_finish(h: ContentHasher) -> (r: Vec<u8>)
    ensures
        r@ == sha256_digest(content_fed(h)),
        r@.len() == 32,
{
    h.inner.finalize().to_vec()
}

/// A content hasher that has been fed nothing yet.
pub fn content_hasher_new() -> (h: ContentHasher)
    ensures
        content_fed(h) == Seq::<u8>::empty(),
{
    sha256_start()
}

/// Feeds the next chunk of content.
pub fn content_hasher_update(h: &mut ContentHasher, chunk: &[u8])
    ensures
        content_fed(*final(h)) == content_fed(*old(h)) + chunk@,
{
    sha256_feed(h, chunk);
}

/// The content hash stored for a media file: the SHA-256 digest of all the
/// bytes fed, in lower-case hexadecimal (64 digits).
pub fn content_hash_hex(h: ContentHasher) -> (r: String)
    ensures
        r@ == spec_hex_bytes(sha256_digest(content_fed(h))),
        r@.len() == 64,
{
    let digest = sha256_finish(h);
    proof {
        lemma_hex_bytes_len(digest@);
    }
    digest_hex(&digest)
}

proof fn lemma_hex_fixed_len(n: nat, width: nat)
    ensures
        hex_fixed(n, width).len() == width,
    decreases width,
{
    if width > 0 {
        lemma_hex_fixed_len(n / 16, (width - 1) as nat);
    }
}

/// Two hexadecimal digits per byte.
pub proof fn lemma_hex_bytes_len(bytes: Seq<u8>)
    ensures
        spec_hex_bytes(bytes).len() == 2 * bytes.len(),
    decreases bytes.len(),
{
    if bytes.len() > 0 {
        lemma_hex_bytes_len(bytes.drop_last());
        lemma_hex_fixed_len(bytes.last() as nat, 2);
    }
}

} // verus!
