//! Verified text utilities: character-level comparison, whitespace trimming,
//! pattern removal, and the username normalisation rules of the directory.

use vstd::prelude::*;
use vstd::string::StrSliceExecFns;
use vstd::string::StringExecFns;

verus! {

/// Character-by-character string equality, proved against the string views.
pub fn str_eq(a: &str, b: &str) -> (r: bool)
    ensures
        r == (a@ == b@),
{
    let alen = a.unicode_len();
    let blen = b.unicode_len();
    if alen != blen {
        return false;
    }
    let mut i: usize = 0;
    while i < alen
        invariant
            alen == a@.len(),
            blen == b@.len(),
            alen == blen,
            i <= alen,
            forall|j: int| 0 <= j < i ==> a@[j] == b@[j],
        decreases alen - i,
    {
        if a.get_char(i) != b.get_char(i) {
            return false;
        }
        i += 1;
    }
    proof {
        assert(a@ =~= b@);
    }
    true
}

/// Relies on String::push: appends exactly one character.
#[verifier::external_body]
pub fn push_char(s: &mut String, c: char)
    ensures
        final(s)@ == old(s)@.push(c),
{
    s.push(c);
}

/// The whitespace characters that trimming removes.
pub open spec fn is_space_char(c: char) -> bool {
    c == ' ' || c == '\t' || c == '\n' || c == '\r'
}

/// `s` without its leading whitespace.
pub open spec fn trim_front(s: Seq<char>) -> Seq<char>
    decreases s.len(),
{
    if s.len() > 0 && is_space_char(s[0]) {
        trim_front(s.drop_first())
    } else {
        s
    }
}

/// `s` without its trailing whitespace.
pub open spec fn trim_back(s: Seq<char>) -> Seq<char>
    decreases s.len(),
{
    if s.len() > 0 && is_space_char(s.last()) {
        trim_back(s.drop_last())
    } else {
        s
    }
}

/// `s` without leading and trailing whitespace.
pub open spec fn trim_view(s: Seq<char>) -> Seq<char> {
    trim_back(trim_front(s))
}

pub(crate) proof fn lemma_trim_front_subrange(s: Seq<char>, i: int)
    requires
        0 <= i <= s.len(),
        forall|j: int| 0 <= j < i ==> is_space_char(s[j]),
        i < s.len() ==> !is_space_char(s[i]),
    ensures
        trim_front(s) =~= s.subrange(i, s.len() as int),
    decreases i,
{
    if i == 0 {
        assert(s.subrange(0, s.len() as int) =~= s);
    } else {
        assert(is_space_char(s[0]));
        let t = s.drop_first();
        assert(forall|j: int| 0 <= j < i - 1 ==> t[j] == s[j + 1]);
        lemma_trim_front_subrange(t, i - 1);
        assert(t.subrange(i - 1, t.len() as int) =~= s.subrange(i, s.len() as int));
    }
}

proof fn lemma_trim_back_subrange(s: Seq<char>, k: int)
    requires
        0 <= k <= s.len(),
        forall|j: int| k <= j < s.len() ==> is_space_char(s[j]),
        k > 0 ==> !is_space_char(s[k - 1]),
    ensures
        trim_back(s) =~= s.subrange(0, k),
    decreases s.len() - k,
{
    if k == s.len() {
        if s.len() > 0 && is_space_char(s.last()) {
            let t = s.drop_last();
            lemma_trim_back_subrange(t, k - 1);
            assert(t.subrange(0, k - 1) =~= s.subrange(0, k - 1));
        } else {
            assert(s.subrange(0, s.len() as int) =~= s);
        }
    } else {
        assert(is_space_char(s.last()));
        let t = s.drop_last();
        assert(forall|j: int| k <= j < t.len() ==> t[j] == s[j]);
        lemma_trim_back_subrange(t, k);
        assert(t.subrange(0, k) =~= s.subrange(0, k));
    }
}

/// Borrowed slice of `s` with leading and trailing whitespace removed.
pub fn trim_spaces(s: &str) -> (r: &str)
    ensures
        r@ == trim_view(s@),
{
    let n = s.unicode_len();
    let mut start: usize = 0;
    while start < n && is_space(s.get_char(start))
        invariant
            n == s@.len(),
            start <= n,
            forall|j: int| 0 <= j < start ==> is_space_char(s@[j]),
        decreases n - start,
    {
        start += 1;
    }
    let mut end: usize = n;
    while end > start && is_space(s.get_char(end - 1))
        invariant
            n == s@.len(),
            start <= end <= n,
            forall|j: int| 0 <= j < start ==> is_space_char(s@[j]),
            forall|j: int| end <= j < n ==> is_space_char(s@[j]),
        decreases end,
    {
        end -= 1;
    }
    proof {
        lemma_trim_front_subrange(s@, start as int);
        let t = s@.subrange(start as int, n as int);
        assert(forall|j: int| (end - start) <= j < t.len() ==> t[j] == s@[j + start]);
        if end > start {
            assert(t[end - start - 1] == s@[end - 1]);
        }
        lemma_trim_back_subrange(t, end - start);
        assert(t.subrange(0, end - start) =~= s@.subrange(start as int, end as int));
    }
    s.substring_char(start, end)
}

/// Executable check for `is_space_char`.
pub fn is_space(c: char) -> (r: bool)
    ensures
        r == is_space_char(c),
{
    c == ' ' || c == '\t' || c == '\n' || c == '\r'
}

/// The leading run of non-whitespace characters of `s`.
pub open spec fn take_until_space(s: Seq<char>) -> Seq<char>
    decreases s.len(),
{
    if s.len() == 0 || is_space_char(s[0]) {
        Seq::empty()
    } else {
        seq![s[0]] + take_until_space(s.drop_first())
    }
}

/// The first whitespace-delimited token of `s`; empty when `s` is empty or
/// all whitespace.
pub open spec fn first_token(s: Seq<char>) -> Seq<char> {
    take_until_space(trim_front(s))
}

pub(crate) proof fn lemma_take_until_space(s: Seq<char>, k: int)
    requires
        0 <= k <= s.len(),
        forall|j: int| 0 <= j < k ==> !is_space_char(s[j]),
        k < s.len() ==> is_space_char(s[k]),
    ensures
        take_until_space(s) =~= s.subrange(0, k),
    decreases k,
{
    if k == 0 {
    } else {
        assert(!is_space_char(s[0]));
        let t = s.drop_first();
        assert(forall|j: int| 0 <= j < k - 1 ==> t[j] == s[j + 1]);
        lemma_take_until_space(t, k - 1);
        assert(seq![s[0]] + t.subrange(0, k - 1) =~= s.subrange(0, k));
    }
}

/// Borrowed slice holding the first whitespace-delimited token of `s`.
pub fn first_token_str(s: &str) -> (r: &str)
    ensures
        r@ == first_token(s@),
{
    let n = s.unicode_len();
    let mut start: usize = 0;
    while start < n && is_space(s.get_char(start))
        invariant
            n == s@.len(),
            start <= n,
            forall|j: int| 0 <= j < start ==> is_space_char(s@[j]),
        decreases n - start,
    {
        start += 1;
    }
    let mut end: usize = start;
    while end < n && !is_space(s.get_char(end))
        invariant
            n == s@.len(),
            start <= end <= n,
            forall|j: int| 0 <= j < start ==> is_space_char(s@[j]),
            forall|j: int| start <= j < end ==> !is_space_char(s@[j]),
        decreases n - end,
    {
        end += 1;
    }
    proof {
        lemma_trim_front_subrange(s@, start as int);
        let t = s@.subrange(start as int, n as int);
        assert(forall|j: int| 0 <= j < t.len() ==> t[j] == s@[j + start]);
        lemma_take_until_space(t, end - start);
        assert(t.subrange(0, end - start) =~= s@.subrange(start as int, end as int));
    }
    s.substring_char(start, end)
}

/// `s` with every occurrence of `pat` removed, scanning left to right.
/// An empty pattern removes nothing.
pub open spec fn remove_pat(s: Seq<char>, pat: Seq<char>) -> Seq<char>
    decreases s.len(),
{
    if pat.len() == 0 || s.len() < pat.len() {
        s
    } else if s.subrange(0, pat.len() as int) == pat {
        remove_pat(s.skip(pat.len() as int), pat)
    } else {
        seq![s[0]] + remove_pat(s.drop_first(), pat)
    }
}

/// Whether `pat` occurs in `s` at position `i`.
pub fn has_pat_at(s: &str, i: usize, pat: &str) -> (r: bool)
    requires
        i + pat@.len() <= s@.len(),
    ensures
        r == (s@.subrange(i as int, i + pat@.len()) == pat@),
{
    let slen = s.unicode_len();
    let plen = pat.unicode_len();
    let mut k: usize = 0;
    while k < plen
        invariant
            slen == s@.len(),
            plen == pat@.len(),
            i + plen <= slen,
            k <= plen,
            forall|j: int| 0 <= j < k ==> s@[i + j] == pat@[j],
        decreases plen - k,
    {
        if s.get_char(i + k) != pat.get_char(k) {
            proof {
                assert(s@.subrange(i as int, i + pat@.len())[k as int] == s@[i + k]);
            }
            return false;
        }
        k += 1;
    }
    proof {
        assert(s@.subrange(i as int, i + pat@.len()) =~= pat@);
    }
    true
}

/// Builds `s` with every occurrence of `pat` removed.
pub fn remove_pattern(s: &str, pat: &str) -> (r: String)
    ensures
        r@ == remove_pat(s@, pat@),
{
    let n = s.unicode_len();
    let plen = pat.unicode_len();
    if plen == 0 {
        return s.to_owned();
    }
    let mut out = String::new();
    let mut i: usize = 0;
    proof {
        assert(s@.skip(0) =~= s@);
        assert(Seq::<char>::empty() + remove_pat(s@, pat@) =~= remove_pat(s@, pat@));
    }
    while i < n
        invariant
            n == s@.len(),
            plen == pat@.len(),
            plen > 0,
            i <= n,
            remove_pat(s@, pat@) == out@ + remove_pat(s@.skip(i as int), pat@),
        decreases n - i,
    {
        let ghost rest = s@.skip(i as int);
        if plen <= n - i && has_pat_at(s, i, pat) {
            proof {
                assert(rest.subrange(0, plen as int) =~= s@.subrange(i as int, i + plen as int));
                assert(rest.skip(plen as int) =~= s@.skip(i + plen as int));
            }
            i += plen;
        } else {
            proof {
                if plen <= n - i {
                    assert(rest.subrange(0, plen as int) =~= s@.subrange(
                        i as int,
                        i + plen as int,
                    ));
                }
                assert(rest.drop_first() =~= s@.skip(i + 1 as int));
                assert(rest[0] == s@[i as int]);
                assert(out@.push(s@[i as int]) + remove_pat(s@.skip(i + 1 as int), pat@) =~= out@
                    + (seq![s@[i as int]] + remove_pat(s@.skip(i + 1 as int), pat@)));
            }
            let c = s.get_char(i);
            push_char(&mut out, c);
            i += 1;
        }
    }
    proof {
        assert(s@.skip(n as int) =~= Seq::<char>::empty());
        assert(out@ + Seq::<char>::empty() =~= out@);
    }
    out
}

/// Index of the first occurrence of `c` in `s` at or after `from`, or
/// `s.len()` when there is none.
pub open spec fn find_char_from(s: Seq<char>, c: char, from: int) -> int
    decreases s.len() - from,
{
    if from < 0 || from >= s.len() {
        s.len() as int
    } else if s[from] == c {
        from
    } else {
        find_char_from(s, c, from + 1)
    }
}

/// Index of the first occurrence of `": "` in `s` at or after `from`, or
/// `s.len()` when there is none.
pub open spec fn find_colon_space_from(s: Seq<char>, from: int) -> int
    decreases s.len() - from,
{
    if from < 0 || from + 2 > s.len() {
        s.len() as int
    } else if s[from] == ':' && s[from + 1] == ' ' {
        from
    } else {
        find_colon_space_from(s, from + 1)
    }
}

/// What a validation error message parses into: the quoted field name and
/// the message after the first `": "`. The message must start with the
/// literal prefix and close the field name's quote; when no `": "` occurs,
/// the message part starts right after the first two characters.
pub open spec fn validation_error_parts(s: Seq<char>) -> Option<(Seq<char>, Seq<char>)> {
    let prefix = "Validation error in field '"@;
    if s.len() >= prefix.len() && s.subrange(0, prefix.len() as int) == prefix {
        let endq = find_char_from(s, '\'', prefix.len() as int);
        if endq < s.len() {
            let cs = find_colon_space_from(s, 0);
            let msg_start = if cs < s.len() {
                cs + 2
            } else {
                2
            };
            Some((s.subrange(prefix.len() as int, endq), s.subrange(msg_start, s.len() as int)))
        } else {
            None
        }
    } else {
        None
    }
}

/// The normalised form of a channel username: the URL prefix, `@` marks and
/// slashes removed, surrounding whitespace trimmed.
pub open spec fn normalized_name(s: Seq<char>) -> Seq<char> {
    trim_view(remove_pat(remove_pat(remove_pat(s, "https://t.me/"@), "@"@), "/"@))
}

/// Namespace for the text helpers of the service.
#[derive(Debug)]
pub struct TextUtils;

impl TextUtils {
    /// Normalises one raw channel name.
    pub fn normalize_name(raw_name: &str) -> (r: String)
        ensures
            r@ == normalized_name(raw_name@),
    {
        let without_url = remove_pattern(raw_name, "https://t.me/");
        let without_at = remove_pattern(without_url.as_str(), "@");
        let without_slash = remove_pattern(without_at.as_str(), "/");
        trim_spaces(without_slash.as_str()).to_owned()
    }

    /// Normalises a list of raw channel names, in order.
    pub fn normalize_names(raw_names: &Vec<String>) -> (r: Vec<String>)
        ensures
            r@.len() == raw_names@.len(),
            forall|i: int| 0 <= i < r@.len() ==> r@[i]@ == normalized_name(raw_names@[i]@),
    {
        let n = raw_names.len();
        let mut r: Vec<String> = Vec::new();
        let mut i: usize = 0;
        while i < n
            invariant
                n == raw_names@.len(),
                i <= n,
                r@.len() == i,
                forall|j: int| 0 <= j < i ==> r@[j]@ == normalized_name(raw_names@[j]@),
            decreases n - i,
        {
            r.push(Self::normalize_name(raw_names[i].as_str()));
            i += 1;
        }
        r
    }

    /// Parses a structured validation error message into its field name and
    /// message text, when the message has that shape.
    pub fn parse_validation_error(error: &str) -> (r: Option<(String, String)>)
        ensures
            match r {
                Some(parts) => validation_error_parts(error@) == Some((parts.0@, parts.1@)),
                None => validation_error_parts(error@) is None,
            },
    {
        let prefix = "Validation error in field '";
        let plen = prefix.unicode_len();
        let n = error.unicode_len();
        if n < plen || !has_pat_at(error, 0, prefix) {
            return None;
        }
        proof {
            reveal_strlit("Validation error in field '");
            assert(plen == 27);
        }
        let mut i: usize = plen;
        while i < n && error.get_char(i) != '\''
            invariant
                n == error@.len(),
                plen <= i <= n,
                find_char_from(error@, '\'', plen as int) == find_char_from(error@, '\'', i as int),
            decreases n - i,
        {
            i += 1;
        }
        if i == n {
            return None;
        }
        let endq = i;
        let mut j: usize = 0;
        let mut found: bool = false;
        while !found && j < n - 1
            invariant
                n == error@.len(),
                27 <= n,
                j <= n,
                found ==> j + 2 <= n && find_colon_space_from(error@, 0) == j,
                !found ==> find_colon_space_from(error@, 0) == find_colon_space_from(
                    error@,
                    j as int,
                ),
            decreases n - j, (if found { 0int } else { 1int }),
        {
            if error.get_char(j) == ':' && error.get_char(j + 1) == ' ' {
                found = true;
            } else {
                j += 1;
            }
        }
        let msg_start: usize = if found {
            j + 2
        } else {
            proof {
                assert(find_colon_space_from(error@, j as int) == n);
            }
            2
        };
        let field = error.substring_char(plen, endq).to_owned();
        let msg = error.substring_char(msg_start, n).to_owned();
        Some((field, msg))
    }
}

} // verus!
