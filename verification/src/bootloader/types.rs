//! Common types for bootloader implementations
//!
//! A fsck result is stored as `base64(gzip("{code}\n{output}"))`, made with the busybox
//! `gzip` and `base64` applets that are always present in the initramfs.

use vstd::prelude::*;
use vstd::string::*;
use vstd::utf8::*;

use crate::bytes::{lossy_of, lossy_text};
use crate::error::concat3;
use crate::system::{bytes_of, ReplyView, Request, RequestView, Session, Transcript};
use crate::text::{
    dec_int_of, decimal_i32, is_white, lemma_dec, lemma_parse_dec_int, lemma_run_back_is, lemma_run_len_is, list1,
    list2, other_than, parse_i32, parse_i32_of, split_once, split_once_of, trim, trim_of, white,
};

verus! {

/// The text that stands for a fsck result: the exit code on a line of its own, then
/// the output.
pub open spec fn record_text(code: int, output: Seq<char>) -> Seq<char> {
    dec_int_of(code) + "\n"@ + output
}

/// The fsck result that a text stands for.
pub open spec fn parsed_record(raw: Seq<char>) -> Option<(int, Seq<char>)> {
    match split_once_of(raw, '\n') {
        None => None,
        Some((code, output)) => match parse_i32_of(trim_of(code)) {
            None => None,
            Some(c) => Some((c, output)),
        },
    }
}

/// Every fsck result is read back from the text that stands for it.
pub proof fn law_record_round_trip(code: i32, output: Seq<char>)
    ensures
        parsed_record(record_text(code as int, output)) == Some((code as int, output)),
{
    let digits = dec_int_of(code as int);
    let raw = record_text(code as int, output);
    reveal_strlit("\n");
    lemma_dec(if code < 0 { (-(code as int)) as nat } else { code as nat });
    lemma_parse_dec_int(code as int);
    assert(digits.len() > 0);
    assert forall|i: int| 0 <= i < digits.len() implies (#[trigger] digits[i]) == '-'
        || crate::text::is_digit(digits[i]) by {
        if code < 0 && i > 0 {
            assert(digits[i] == crate::text::dec_of((-(code as int)) as nat)[i - 1]);
        }
    }
    assert forall|i: int| 0 <= i < digits.len() implies (#[trigger] raw[i]) == digits[i] by {}
    lemma_run_len_is(raw, other_than('\n'), digits.len());
    assert(raw.take(digits.len() as int) =~= digits);
    assert(raw.skip(digits.len() as int + 1) =~= output);
    assert(!is_white(digits[0]));
    lemma_run_len_is(digits, white(), 0);
    assert(digits.skip(0) =~= digits);
    assert(!is_white(digits[digits.len() - 1]));
    lemma_run_back_is(digits, white(), 0);
    assert(digits.take(digits.len() as int) =~= digits);
}

pub open spec fn gzip_request(raw: Seq<char>) -> RequestView {
    Request::Pipe { program: "/bin/gzip"@, args: seq!["-c"@], input: encode_utf8(raw) }
}

pub open spec fn base64_request(bytes: Seq<u8>) -> RequestView {
    Request::Pipe { program: "/bin/base64"@, args: seq!["-w"@, "0"@], input: bytes }
}

pub open spec fn unbase64_request(encoded: Seq<char>) -> RequestView {
    Request::Pipe { program: "/bin/base64"@, args: seq!["-d"@], input: encode_utf8(encoded) }
}

pub open spec fn gunzip_request(bytes: Seq<u8>) -> RequestView {
    Request::Pipe { program: "/bin/gunzip"@, args: seq!["-c"@], input: bytes }
}

/// What a filter wrote, if it ran and exited with success.
pub open spec fn filtered(reply: ReplyView) -> Option<Seq<u8>> {
    match bytes_of(reply) {
        Ok((code, stdout)) => if code == Some(0i32) {
            Some(stdout)
        } else {
            None
        },
        Err(_) => None,
    }
}

/// Asks a filter; the outer `None` means that the answer is outstanding.
fn filter(sys: &mut Session, request: Request) -> (r: Option<Option<Vec<u8>>>)
    ensures
        final(sys)@ == old(sys)@.ask(request@),
        match r {
            Some(Some(b)) => old(sys)@.next() is Some && filtered(old(sys)@.next()->0) == Some(b@),
            Some(None) => old(sys)@.next() is Some && filtered(old(sys)@.next()->0) is None,
            None => old(sys)@.next() is None,
        },
{
    match sys.pipe(request) {
        None => None,
        Some(Err(_)) => Some(None),
        Some(Ok((code, stdout))) => match code {
            Some(c) => if c == 0 {
                Some(Some(stdout))
            } else {
                Some(None)
            },
            None => Some(None),
        },
    }
}

/// Compresses a fsck result and writes it in base64. The text is empty where a filter
/// fails; it is `None` where an answer is outstanding.
pub open spec fn encoded(t: Transcript, code: int, output: Seq<char>) -> (Transcript, Option<Seq<char>>) {
    let t1 = t.ask(gzip_request(record_text(code, output)));
    match t.next() {
        None => (t1, None),
        Some(gz) => match filtered(gz) {
            None => (t1, Some(Seq::empty())),
            Some(compressed) => {
                let t2 = t1.ask(base64_request(compressed));
                match t1.next() {
                    None => (t2, None),
                    Some(b64) => match filtered(b64) {
                        None => (t2, Some(Seq::empty())),
                        Some(bytes) => (t2, Some(trim_of(lossy_of(bytes)))),
                    },
                }
            },
        },
    }
}

/// Encode fsck result for storage in the bootloader environment.
///
/// Produces `base64(gzip("{code}\n{output}"))` using the busybox `gzip` and
/// `base64` applets.
///
/// Returns an empty string if encoding fails (non-fatal; the plain log file
/// on the data partition still captures the output). An empty string
/// stored in the bootloader env is indistinguishable from "no fsck ran".
pub fn encode_fsck_output(code: i32, output: &str, sys: &mut Session) -> (r: Option<String>)
    ensures
        (final(sys)@, r.deep_view()) == encoded(old(sys)@, code as int, output@),
{
    let raw = concat3(decimal_i32(code).as_str(), "\n", output);
    let input = raw.as_str().as_bytes_vec();
    let args = list1("-c");
    let compressed = match filter(
        sys,
        Request::Pipe { program: String::from_str("/bin/gzip"), args, input },
    ) {
        None => {
            return None;
        },
        Some(None) => {
            return Some(String::new());
        },
        Some(Some(bytes)) => bytes,
    };
    let args = list2("-w", "0");
    match filter(
        sys,
        Request::Pipe { program: String::from_str("/bin/base64"), args, input: compressed },
    ) {
        None => None,
        Some(None) => Some(String::new()),
        Some(Some(bytes)) => Some(trim(lossy_text(&bytes).as_str())),
    }
}

/// Reads base64, decompresses it and reads the fsck result in it. The inner `None`
/// means that there is none; the outer one that an answer is outstanding.
pub open spec fn decoded(t: Transcript, text: Seq<char>) -> (Transcript, Option<Option<(int, Seq<char>)>>) {
    let t1 = t.ask(unbase64_request(text));
    match t.next() {
        None => (t1, None),
        Some(b64) => match filtered(b64) {
            None => (t1, Some(None)),
            Some(compressed) => {
                let t2 = t1.ask(gunzip_request(compressed));
                match t1.next() {
                    None => (t2, None),
                    Some(gz) => match filtered(gz) {
                        None => (t2, Some(None)),
                        Some(bytes) => (t2, Some(parsed_record(lossy_of(bytes)))),
                    },
                }
            },
        },
    }
}

/// The next two answers are those of filters that give back the text `raw`.
pub open spec fn filters_give_back(t: Transcript, raw: Seq<char>) -> bool {
    &&& t.rest.len() >= 2
    &&& filtered(t.rest[0]) is Some
    &&& filtered(t.rest[1]) == Some(encode_utf8(raw))
}

/// A decoded fsck result by view.
pub open spec fn pair_view(r: Option<Option<(i32, String)>>) -> Option<Option<(int, Seq<char>)>> {
    match r {
        None => None,
        Some(None) => Some(None),
        Some(Some(p)) => Some(Some((p.0 as int, p.1@))),
    }
}

/// The fsck result that a text stands for.
pub fn parse_record(raw: &str) -> (r: Option<(i32, String)>)
    ensures
        match r {
            Some(p) => parsed_record(raw@) == Some((p.0 as int, p.1@)),
            None => parsed_record(raw@) is None,
        },
{
    match split_once(raw, '\n') {
        None => None,
        Some((code, output)) => match parse_i32(trim(code.as_str()).as_str()) {
            None => None,
            Some(c) => Some((c, output)),
        },
    }
}

/// Decode a fsck result previously encoded with [`encode_fsck_output`].
///
/// Returns `(exit_code, output)` on success, or `None` if decoding fails. Where the two
/// filters give back what went into those of the encoding, so does this function.
pub fn decode_fsck_output(encoded: &str, sys: &mut Session) -> (r: Option<Option<(i32, String)>>)
    ensures
        (final(sys)@, pair_view(r)) == decoded(old(sys)@, encoded@),
        forall|code: i32, output: Seq<char>|
            #![trigger record_text(code as int, output)]
            filters_give_back(old(sys)@, record_text(code as int, output)) ==> pair_view(r) == Some(
                Some((code as int, output)),
            ),
{
    let input = encoded.as_bytes_vec();
    let args = list1("-d");
    let compressed = match filter(
        sys,
        Request::Pipe { program: String::from_str("/bin/base64"), args, input },
    ) {
        None => {
            return None;
        },
        Some(None) => {
            return Some(None);
        },
        Some(Some(bytes)) => bytes,
    };
    let args = list1("-c");
    match filter(
        sys,
        Request::Pipe { program: String::from_str("/bin/gunzip"), args, input: compressed },
    ) {
        None => None,
        Some(None) => Some(None),
        Some(Some(bytes)) => {
            let raw = lossy_text(&bytes);
            let record = parse_record(raw.as_str());
            proof {
                let t = old(sys)@;
                assert(t.rest.len() >= 2);
                assert(t.ask(unbase64_request(encoded@)).rest[0] == t.rest[1]);
                assert forall|code: i32, output: Seq<char>|
                    #![trigger record_text(code as int, output)]
                    filters_give_back(t, record_text(code as int, output)) implies parsed_record(raw@) == Some(
                    (code as int, output),
                ) by {
                    encode_utf8_valid_utf8(record_text(code as int, output));
                    encode_utf8_decode_utf8(record_text(code as int, output));
                    law_record_round_trip(code, output);
                }
            }
            Some(record)
        },
    }
}

} // verus!
