use errno_no_std::decode::{localized_msg_fmt, is_canonical_codeset, FeedStatus, MsgDecoder, MsgFmt};
use errno_no_std::escape::{write_byte, write_fallback};
use errno_no_std::render::{errno_fmt, trim_message};
use errno_no_std::utf8::write_utf8_lossy;

#[test]
fn localized_msg_fmt_invalid_non_utf8_encoding() {
    // The message an EUC-JP locale produces: a valid two-byte character,
    // then a byte pair the converter rejects at its first byte, whose second
    // byte is plain ASCII `i`.
    let msg: &[u8] = b"\x8E\xA1\x8E\x69";
    match localized_msg_fmt(msg, b"EUC-JP\0") {
        MsgFmt::Done(_) => panic!("EUC-JP must take the conversion path"),
        MsgFmt::NeedsConverter(mut d) => {
            // The converter consumes the leading pair and deposits the
            // halfwidth ideographic full stop, then stops at the byte it
            // cannot decode.
            let done = d.step(2, "\u{FF61}".as_bytes(), FeedStatus::InvalidByte);
            assert!(!done);
            // The remaining single byte converts as ASCII and completes.
            let done = d.step(1, b"i", FeedStatus::Complete);
            assert!(done);
            assert_eq!(d.finish(), "\u{FF61}\\x8Ei".as_bytes());
        }
    }
}

#[test]
fn fast_path_escapes_undecodable_prefix() {
    // One undecodable four-byte run followed by the ASCII text `test`:
    // the rendering is the four escape tokens, then the text, verbatim.
    let msg: &[u8] = b"\xFF\xFE\x80\x81test";
    match localized_msg_fmt(msg, b"UTF-8\0") {
        MsgFmt::Done(v) => assert_eq!(v, b"\\xFF\\xFE\\x80\\x81test"),
        MsgFmt::NeedsConverter(_) => panic!("UTF-8 must take the fast path"),
    }
}

#[test]
fn fast_path_valid_input_verbatim() {
    // Entirely valid input carries no escape token: it is copied unaltered.
    let msg = "\u{8a31}\u{53ef}\u{304c}\u{3042}\u{308a}\u{307e}\u{305b}\u{3093}".as_bytes();
    let mut out: Vec<u8> = Vec::new();
    write_utf8_lossy(&mut out, msg);
    assert_eq!(out, msg);
}

#[test]
fn fast_path_nonempty_input_nonempty_output() {
    let mut out: Vec<u8> = Vec::new();
    write_utf8_lossy(&mut out, b"\x80");
    assert!(out.len() >= 1);
    assert_eq!(out, b"\\x80");
}

#[test]
fn fast_path_counts_tokens_per_invalid_byte() {
    // Valid text around two invalid bytes is preserved in order, and each
    // invalid byte becomes exactly one four-character token.
    let mut out: Vec<u8> = Vec::new();
    write_utf8_lossy(&mut out, b"ab\xC0cd\xFFe");
    assert_eq!(out, b"ab\\xC0cd\\xFFe");
    assert_eq!(out.len(), 7 + 3 * 2);
}

#[test]
fn fallback_escapes_every_byte() {
    // An unrecognized encoding degrades to a fully escaped rendering, one
    // token per input byte.
    let msg: &[u8] = b"\x01A\x8E";
    match localized_msg_fmt(msg, b"KOI8-U\0") {
        MsgFmt::Done(_) => panic!("KOI8-U must take the conversion path"),
        MsgFmt::NeedsConverter(mut d) => {
            d.fallback();
            let out = d.finish();
            assert_eq!(out, b"\\x01\\x41\\x8E");
            assert_eq!(out.len(), 4 * msg.len());
        }
    }
}

#[test]
fn undersized_buffer_reproduces_full_message() {
    // A working buffer too small for the whole message only forces more
    // iterations: the text arrives in full-buffer chunks and the result is
    // byte-for-byte the same as a single-pass conversion.
    let chunks: [&[u8]; 3] = [b"Permissi", b"on denie", b"d"];
    let msg: &[u8] = b"\x01\x02\x03\x04\x05\x06\x07\x08\x09\x0A\x0B\x0C\x0D\x0E\x0F\x10\x11";

    let mut small = MsgDecoder::new(msg);
    assert!(!small.step(8, chunks[0], FeedStatus::BufferFull));
    assert_eq!(small.remaining_len(), 9);
    assert!(!small.step(8, chunks[1], FeedStatus::BufferFull));
    assert!(small.step(1, chunks[2], FeedStatus::Complete));

    let mut big = MsgDecoder::new(msg);
    assert!(big.step(17, b"Permission denied", FeedStatus::Complete));

    assert_eq!(small.finish(), big.finish());
}

#[test]
fn empty_message_renders_fixed_fallback() {
    // The acquirer reported no message for code 0: the rendering is the
    // fixed fallback text with the code in four hexadecimal digits.
    assert_eq!(errno_fmt(0, b""), b"error 0x0000");
}

#[test]
fn fallback_text_hex_widths() {
    assert_eq!(errno_fmt(0xAB, b""), b"error 0x00ab");
    assert_eq!(errno_fmt(0xABC, b""), b"error 0x0abc");
    assert_eq!(errno_fmt(0x11170, b""), b"error 0x11170");
    assert_eq!(errno_fmt(-1, b""), b"error 0xffffffff");
}

#[test]
fn whitespace_only_message_renders_fallback() {
    assert_eq!(errno_fmt(2, b" \r\n\t"), b"error 0x0002");
}

#[test]
fn rendered_message_is_trimmed() {
    assert_eq!(errno_fmt(13, b"Permission denied\r\n"), b"Permission denied");
    let t = trim_message(b"a \t\r\n");
    assert_eq!(t, b"a");
}

#[test]
fn escape_token_format() {
    let mut out: Vec<u8> = Vec::new();
    write_byte(&mut out, 0x8E);
    assert_eq!(out, b"\\x8E");
    let mut all: Vec<u8> = Vec::new();
    write_fallback(&mut all, b"\x00\x0F\xA5");
    assert_eq!(all, b"\\x00\\x0F\\xA5");
}

#[test]
fn canonical_codeset_is_exact() {
    assert!(is_canonical_codeset(b"UTF-8\0"));
    assert!(!is_canonical_codeset(b"UTF-8"));
    assert!(!is_canonical_codeset(b"utf-8\0"));
    assert!(!is_canonical_codeset(b"EUC-JP\0"));
}

#[test]
fn decoder_consumes_every_byte_once() {
    let msg: &[u8] = b"abcdef";
    let mut d = MsgDecoder::new(msg);
    assert_eq!(d.remaining_len(), 6);
    assert_eq!(d.remaining(), b"abcdef");
    assert!(!d.step(2, b"ab", FeedStatus::BufferFull));
    assert_eq!(d.remaining(), b"cdef");
    assert!(!d.step(1, b"c", FeedStatus::InvalidByte));
    // The invalid byte right after the consumed prefix was escaped and
    // skipped; decoding resumes after it.
    assert_eq!(d.remaining(), b"ef");
    assert!(!d.is_done());
    assert!(d.step(2, b"ef", FeedStatus::Complete));
    assert!(d.is_done());
    assert_eq!(d.remaining_len(), 0);
    assert_eq!(d.finish(), b"abc\\x64ef");
}
