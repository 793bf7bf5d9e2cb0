//! The subscriber extractor: recovers a subscriber count from the HTML
//! fragment that accompanies a similar-channel candidate.
//!
//! An external HTML parser locates the labelled element; the token parsing
//! around it — first whitespace-delimited token, thousands separators
//! stripped, read as a signed integer — is verified here. Extraction is
//! best effort: any lookup or parse failure yields an absent count.

use select::document::Document;
use select::predicate::Class;
use select::predicate::Name;
use select::predicate::Predicate;

use vstd::prelude::*;
use vstd::string::StrSliceExecFns;

use crate::records::opt_text;
use crate::text::first_token;
use crate::text::first_token_str;
use crate::text::remove_pat;
use crate::text::remove_pattern;

verus! {

/// The concatenated text of the first `span` element of class
/// `pr-similar-channel-desc` in an HTML fragment, in document order;
/// nothing when the fragment holds no such element.
pub uninterp spec fn desc_span_text(html: Seq<char>) -> Option<Seq<char>>;

/// Relies on select's Document::from, Document::find with
/// Name("span").and(Class("pr-similar-channel-desc")), and Node::text:
/// parsing an HTML string is deterministic, `find` yields matches in
/// document order, and `text` concatenates the node's text descendants,
/// so the result is a function of the fragment alone.
#[verifier::external_body]
fn find_desc_span(html_string: &str) -> (r: Option<String>)
    ensures
        opt_text(r) == desc_span_text(html_string@),
{
    let document = Document::from(html_string);
    match document.find(Name("span").and(Class("pr-similar-channel-desc"))).next() {
        Some(node) => Some(node.text()),
        None => None,
    }
}

/// Whether `c` is a decimal digit.
pub open spec fn is_digit(c: char) -> bool {
    48 <= c as u32 <= 57
}

/// Whether every character of `s` is a decimal digit.
pub open spec fn all_digits(s: Seq<char>) -> bool {
    forall|i: int| 0 <= i < s.len() ==> is_digit(#[trigger] s[i])
}

/// The value of a digit string, most significant first.
pub open spec fn digits_val(s: Seq<char>) -> nat
    decreases s.len(),
{
    if s.len() == 0 {
        0
    } else {
        (digits_val(s.drop_last()) * 10 + (s.last() as u32 - 48)) as nat
    }
}

/// What `str::parse::<i64>` accepts: an optional sign followed by one or
/// more decimal digits, the value fitting in a 64-bit signed integer.
pub open spec fn parse_i64_view(s: Seq<char>) -> Option<i64> {
    if s.len() > 0 && (s[0] == '-' || s[0] == '+') {
        let ds = s.drop_first();
        if ds.len() > 0 && all_digits(ds) {
            if s[0] == '-' && digits_val(ds) <= 0x8000_0000_0000_0000 {
                Some((-(digits_val(ds) as int)) as i64)
            } else if s[0] == '+' && digits_val(ds) <= i64::MAX {
                Some(digits_val(ds) as i64)
            } else {
                None
            }
        } else {
            None
        }
    } else if s.len() > 0 && all_digits(s) && digits_val(s) <= i64::MAX {
        Some(digits_val(s) as i64)
    } else {
        None
    }
}

/// Reads a digit string into a value, reporting overflow past `limit`.
fn parse_digits(s: &str, from: usize, limit: u64) -> (r: Option<u64>)
    requires
        from <= s@.len(),
    ensures
        ({
            let ds = s@.skip(from as int);
            match r {
                Some(v) => ds.len() > 0 && all_digits(ds) && v == digits_val(ds) && v <= limit,
                None => ds.len() == 0 || !all_digits(ds) || digits_val(ds) > limit,
            }
        }),
{
    let n = s.unicode_len();
    if from == n {
        return None;
    }
    let ghost ds = s@.skip(from as int);
    let mut acc: u64 = 0;
    let mut over: bool = false;
    let mut i: usize = from;
    while i < n
        invariant
            n == s@.len(),
            from <= i <= n,
            ds == s@.skip(from as int),
            all_digits(ds.subrange(0, i - from)),
            !over ==> acc == digits_val(ds.subrange(0, i - from)) && acc <= limit,
            over ==> digits_val(ds.subrange(0, i - from)) > limit,
        decreases n - i,
    {
        let c = s.get_char(i);
        let cv = c as u32;
        proof {
            assert(ds[i - from] == s@[i as int]);
            assert(ds.subrange(0, i + 1 - from).drop_last() =~= ds.subrange(0, i - from));
            assert(ds.subrange(0, i + 1 - from).last() == ds[i - from]);
        }
        if cv < 48 || cv > 57 {
            proof {
                assert(!is_digit(ds[i - from]));
            }
            return None;
        }
        let d = (cv - 48) as u64;
        if !over {
            let stepped = acc.checked_mul(10);
            match stepped {
                Some(x) => {
                    match x.checked_add(d) {
                        Some(v) => {
                            if v <= limit {
                                acc = v;
                            } else {
                                over = true;
                            }
                        },
                        None => {
                            over = true;
                        },
                    }
                },
                None => {
                    over = true;
                },
            }
        } else {
            proof {
                let pre = ds.subrange(0, i - from);
                let cur = ds.subrange(0, i + 1 - from);
                assert(digits_val(cur) == digits_val(pre) * 10 + (cur.last() as u32 - 48));
                assert(digits_val(pre) * 10 >= digits_val(pre)) by (nonlinear_arith)
                    requires
                        digits_val(pre) >= 0,
                ;
            }
        }
        i += 1;
    }
    proof {
        assert(ds.subrange(0, n - from) =~= ds);
    }
    if over {
        None
    } else {
        Some(acc)
    }
}

/// Parses a string exactly as `str::parse::<i64>` does: optional sign,
/// decimal digits, overflow rejected.
pub fn parse_i64_str(s: &str) -> (r: Option<i64>)
    ensures
        r == parse_i64_view(s@),
{
    let n = s.unicode_len();
    if n == 0 {
        return None;
    }
    let first = s.get_char(0);
    if first == '-' {
        proof {
            assert(s@.skip(1) =~= s@.drop_first());
        }
        match parse_digits(s, 1, 0x8000_0000_0000_0000u64) {
            Some(v) => {
                if v == 0x8000_0000_0000_0000u64 {
                    Some(i64::MIN)
                } else {
                    Some(-(v as i64))
                }
            },
            None => None,
        }
    } else if first == '+' {
        proof {
            assert(s@.skip(1) =~= s@.drop_first());
        }
        match parse_digits(s, 1, 0x7fff_ffff_ffff_ffffu64) {
            Some(v) => Some(v as i64),
            None => None,
        }
    } else {
        proof {
            assert(s@.skip(0) =~= s@);
        }
        match parse_digits(s, 0, 0x7fff_ffff_ffff_ffffu64) {
            Some(v) => Some(v as i64),
            None => None,
        }
    }
}

/// The subscriber count an HTML fragment yields: the first token of the
/// labelled element's text, thousands separators removed, as an integer;
/// absent on any lookup or parse failure.
pub open spec fn subscribers_of(html: Seq<char>) -> Option<i64> {
    match desc_span_text(html) {
        Some(text) => parse_i64_view(remove_pat(first_token(text), ","@)),
        None => None,
    }
}

/// Extracts the subscriber count from an HTML fragment; best effort.
pub fn extract_subscribers(html_string: &str) -> (r: Option<i64>)
    ensures
        r == subscribers_of(html_string@),
{
    match find_desc_span(html_string) {
        Some(text) => {
            let token = first_token_str(text.as_str());
            let cleaned = remove_pattern(token, ",");
            parse_i64_str(cleaned.as_str())
        },
        None => None,
    }
}

} // verus!
