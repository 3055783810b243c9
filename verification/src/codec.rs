//! The transport codec: remote file bodies arrive base64-encoded, with the
//! base64 stream line-wrapped by the transport. Decoding strips those
//! wrapping newlines (literal and escaped), base64-decodes, and checks that
//! the result is UTF-8 text.

use vstd::prelude::*;

use vstd::string::StringSliceAdditionalSpecFns;
use vstd::utf8::{decode_utf8, encode_utf8, valid_utf8};

use base64::Engine;

use crate::model::DecodeError;
use crate::text::{chars_of, string_from_chars};

verus! {

/// What base64 decoding with the standard alphabet and padding yields for
/// the given characters: the decoded bytes, or nothing when they are not
/// valid base64.
pub uninterp spec fn b64_decode_of(s: Seq<char>) -> Option<Seq<u8>>;

/// What base64 encoding with the standard alphabet and padding yields for
/// the given bytes.
pub uninterp spec fn b64_encode_of(b: Seq<u8>) -> Seq<char>;

/// The sequence with every literal newline character removed.
pub open spec fn remove_nl(s: Seq<char>) -> Seq<char>
    decreases s.len(),
{
    if s.len() == 0 {
        Seq::empty()
    } else if s[0] == '\n' {
        remove_nl(s.drop_first())
    } else {
        seq![s[0]] + remove_nl(s.drop_first())
    }
}

/// The sequence with every (non-overlapping, leftmost-first) two-character
/// `\n` escape removed, as `str::replace("\\n", "")` leaves it.
pub open spec fn remove_esc_nl(s: Seq<char>) -> Seq<char>
    decreases s.len(),
{
    if s.len() < 2 {
        s
    } else if s[0] == '\\' && s[1] == 'n' {
        remove_esc_nl(s.skip(2))
    } else {
        seq![s[0]] + remove_esc_nl(s.drop_first())
    }
}

/// The payload with the transport's line wrapping undone: literal newlines
/// removed first, then escaped ones.
pub open spec fn strip_wrapping(s: Seq<char>) -> Seq<char> {
    remove_esc_nl(remove_nl(s))
}

/// What [`base64_decode`] returns: the text decoded from the unwrapped
/// base64 payload, or the error that pins down which stage refused it.
pub open spec fn spec_base64_decode(s: Seq<char>) -> Result<Seq<char>, DecodeError> {
    match b64_decode_of(strip_wrapping(s)) {
        Option::None => Err(DecodeError::InvalidBase64),
        Option::Some(bytes) => if valid_utf8(bytes) {
            Ok(decode_utf8(bytes))
        } else {
            Err(DecodeError::InvalidUtf8)
        },
    }
}

/// Relies on base64's standard engine `decode`: a deterministic function of
/// the input characters that fails exactly on input that is not valid
/// base64.
#[verifier::external_body]
fn b64_decode(s: &str) -> (r: Option<Vec<u8>>)
    ensures
        match r {
            Option::Some(v) => b64_decode_of(s@) == Option::Some(v@),
            Option::None => b64_decode_of(s@) is None,
        },
{
    base64::engine::general_purpose::STANDARD.decode(s.as_bytes()).ok()
}

/// Relies on base64's standard engine `encode`: a deterministic function of
/// the input bytes whose output is drawn from the standard alphabet plus
/// `=` padding — so it holds no newline and no backslash — and which
/// `decode` inverts.
#[verifier::external_body]
fn b64_encode(b: &[u8]) -> (r: String)
    requires
        b@.len() <= usize::MAX / 4,
    ensures
        r@ == b64_encode_of(b@),
        b64_decode_of(r@) == Option::Some(b@),
        forall|i: int| 0 <= i < r@.len() ==> r@[i] != '\n' && r@[i] != '\\',
{
    base64::engine::general_purpose::STANDARD.encode(b)
}

/// Relies on `String::from_utf8`: succeeds exactly on valid UTF-8 input,
/// decoding it to the corresponding characters.
#[verifier::external_body]
fn utf8_to_string(v: Vec<u8>) -> (r: Option<String>)
    ensures
        match r {
            Option::Some(s) => valid_utf8(v@) && s@ == decode_utf8(v@),
            Option::None => !valid_utf8(v@),
        },
{
    String::from_utf8(v).ok()
}

/// Removes every literal newline character.
fn remove_nl_exec(v: &Vec<char>) -> (r: Vec<char>)
    ensures
        r@ == remove_nl(v@),
{
    let mut r: Vec<char> = Vec::new();
    let n = v.len();
    proof {
        assert(v@.skip(0) == v@);
        assert(Seq::<char>::empty() + remove_nl(v@) =~= remove_nl(v@));
    }
    let mut i: usize = 0;
    while i < n
        invariant
            i <= n,
            n == v.len(),
            remove_nl(v@) == r@ + remove_nl(v@.skip(i as int)),
        decreases n - i,
    {
        let ghost suffix = v@.skip(i as int);
        proof {
            assert(suffix[0] == v@[i as int]);
            assert(suffix.drop_first() =~= v@.skip(i + 1));
        }
        if v[i] != '\n' {
            r.push(v[i]);
            proof {
                assert(remove_nl(suffix) == seq![suffix[0]] + remove_nl(suffix.drop_first()));
                assert(r@ + remove_nl(v@.skip(i + 1))
                    =~= r@.drop_last() + remove_nl(suffix));
            }
        }
        i = i + 1;
    }
    proof {
        assert(v@.skip(n as int) =~= Seq::<char>::empty());
        assert(r@ + remove_nl(v@.skip(n as int)) =~= r@);
    }
    r
}

/// Removes every two-character `\n` escape, leftmost first.
fn remove_esc_nl_exec(v: &Vec<char>) -> (r: Vec<char>)
    ensures
        r@ == remove_esc_nl(v@),
{
    let mut r: Vec<char> = Vec::new();
    let n = v.len();
    proof {
        assert(v@.skip(0) == v@);
        assert(Seq::<char>::empty() + remove_esc_nl(v@) =~= remove_esc_nl(v@));
    }
    let mut i: usize = 0;
    while i < n
        invariant
            i <= n,
            n == v.len(),
            remove_esc_nl(v@) == r@ + remove_esc_nl(v@.skip(i as int)),
        decreases n - i,
    {
        let ghost suffix = v@.skip(i as int);
        proof {
            assert(suffix[0] == v@[i as int]);
            if i + 1 < n {
                assert(suffix[1] == v@[i + 1]);
            }
            assert(suffix.drop_first() =~= v@.skip(i + 1));
        }
        if i + 1 < n && v[i] == '\\' && v[i + 1] == 'n' {
            proof {
                assert(suffix.skip(2) =~= v@.skip(i + 2));
            }
            i = i + 2;
        } else {
            r.push(v[i]);
            proof {
                assert(remove_esc_nl(suffix)
                    == seq![suffix[0]] + remove_esc_nl(suffix.drop_first()));
                assert(r@ + remove_esc_nl(v@.skip(i + 1))
                    =~= r@.drop_last() + remove_esc_nl(suffix));
            }
            i = i + 1;
        }
    }
    proof {
        assert(v@.skip(i as int) =~= Seq::<char>::empty());
        assert(r@ + remove_esc_nl(v@.skip(i as int)) =~= r@);
    }
    r
}

/// Reverses the transport encoding of a fetched body: strips the line
/// wrapping the transport inserts into the base64 stream, base64-decodes,
/// and decodes the bytes as UTF-8 text.
pub fn base64_decode(c: String) -> (r: Result<String, DecodeError>)
    ensures
        match r {
            Ok(s) => spec_base64_decode(c@) == Ok::<Seq<char>, DecodeError>(s@),
            Err(e) => spec_base64_decode(c@) == Err::<Seq<char>, DecodeError>(e),
        },
{
    let chars = chars_of(c.as_str());
    let no_nl = remove_nl_exec(&chars);
    let stripped = remove_esc_nl_exec(&no_nl);
    let payload = string_from_chars(&stripped);
    match b64_decode(payload.as_str()) {
        Option::None => Err(DecodeError::InvalidBase64),
        Option::Some(bytes) => match utf8_to_string(bytes) {
            Option::Some(text) => Ok(text),
            Option::None => Err(DecodeError::InvalidUtf8),
        },
    }
}

proof fn lemma_remove_nl_id(s: Seq<char>)
    requires
        forall|i: int| 0 <= i < s.len() ==> s[i] != '\n',
    ensures
        remove_nl(s) == s,
    decreases s.len(),
{
    if s.len() > 0 {
        assert(forall|i: int| 0 <= i < s.drop_first().len() ==> s.drop_first()[i] != '\n');
        lemma_remove_nl_id(s.drop_first());
        assert(seq![s[0]] + s.drop_first() =~= s);
    }
}

proof fn lemma_remove_esc_nl_id(s: Seq<char>)
    requires
        forall|i: int| 0 <= i < s.len() ==> s[i] != '\\',
    ensures
        remove_esc_nl(s) == s,
    decreases s.len(),
{
    if s.len() >= 2 {
        assert(forall|i: int| 0 <= i < s.drop_first().len() ==> s.drop_first()[i] != '\\');
        lemma_remove_esc_nl_id(s.drop_first());
        assert(seq![s[0]] + s.drop_first() =~= s);
    }
}

/// Applies the transport encoding to text: base64 with the standard
/// alphabet and padding. Its contract is the encode/decode round trip: what
/// this returns, [`base64_decode`] maps back to the text it was given.
pub fn base64_encode(s: &str) -> (r: String)
    requires
        s.spec_bytes().len() <= usize::MAX / 4,
    ensures
        r@ == b64_encode_of(encode_utf8(s@)),
        spec_base64_decode(r@) == Ok::<Seq<char>, DecodeError>(s@),
{
    let bytes = s.as_bytes();
    let r = b64_encode(bytes);
    proof {
        lemma_remove_nl_id(r@);
        lemma_remove_esc_nl_id(r@);
        vstd::utf8::encode_utf8_valid_utf8(s@);
        vstd::utf8::encode_utf8_decode_utf8(s@);
    }
    r
}

proof fn lemma_remove_nl_add(a: Seq<char>, b: Seq<char>)
    ensures
        remove_nl(a + b) == remove_nl(a) + remove_nl(b),
    decreases a.len(),
{
    if a.len() == 0 {
        assert(a + b =~= b);
        assert(remove_nl(a) + remove_nl(b) =~= remove_nl(b));
    } else {
        lemma_remove_nl_add(a.drop_first(), b);
        assert((a + b).drop_first() =~= a.drop_first() + b);
        assert((a + b)[0] == a[0]);
        if a[0] == '\n' {
        } else {
            assert(seq![a[0]] + (remove_nl(a.drop_first()) + remove_nl(b))
                =~= (seq![a[0]] + remove_nl(a.drop_first())) + remove_nl(b));
        }
    }
}

/// Law: a literal newline inserted anywhere by the transport's line
/// wrapping does not change what the payload decodes to.
pub proof fn lemma_decode_ignores_wrapped_newline(a: Seq<char>, b: Seq<char>)
    ensures
        spec_base64_decode(a + seq!['\n'] + b) == spec_base64_decode(a + b),
{
    lemma_remove_nl_add(a + seq!['\n'], b);
    lemma_remove_nl_add(a, seq!['\n']);
    lemma_remove_nl_add(a, b);
    assert(remove_nl(seq!['\n']) == remove_nl(Seq::<char>::empty())) by {
        assert(seq!['\n'].drop_first() =~= Seq::<char>::empty());
    }
    assert(remove_nl(a) + remove_nl(seq!['\n']) =~= remove_nl(a));
    assert(remove_nl(a + seq!['\n'] + b) == remove_nl(a + b));
}

proof fn lemma_remove_esc_nl_clean_prefix(a: Seq<char>, rest: Seq<char>)
    requires
        forall|i: int| 0 <= i < a.len() ==> a[i] != '\\',
    ensures
        remove_esc_nl(a + rest) == a + remove_esc_nl(rest),
    decreases a.len(),
{
    let s = a + rest;
    if a.len() == 0 {
        assert(s =~= rest);
        assert(a + remove_esc_nl(rest) =~= remove_esc_nl(rest));
    } else if s.len() < 2 {
        assert(rest.len() < 2);
        assert(remove_esc_nl(rest) == rest);
        assert(a + remove_esc_nl(rest) =~= s);
    } else {
        assert(s[0] == a[0]);
        assert(forall|i: int| 0 <= i < a.drop_first().len() ==> a.drop_first()[i] != '\\');
        lemma_remove_esc_nl_clean_prefix(a.drop_first(), rest);
        assert(s.drop_first() =~= a.drop_first() + rest);
        assert(seq![a[0]] + (a.drop_first() + remove_esc_nl(rest)) =~= a + remove_esc_nl(rest));
    }
}

/// Law: an escaped newline inserted anywhere into a wrapped base64 payload
/// — whose characters include neither newline nor backslash — does not
/// change what the payload decodes to.
pub proof fn lemma_decode_ignores_escaped_newline(a: Seq<char>, b: Seq<char>)
    requires
        forall|i: int| 0 <= i < a.len() ==> a[i] != '\n' && a[i] != '\\',
        forall|i: int| 0 <= i < b.len() ==> b[i] != '\n' && b[i] != '\\',
    ensures
        spec_base64_decode(a + seq!['\\', 'n'] + b) == spec_base64_decode(a + b),
{
    let esc = seq!['\\', 'n'];
    let s = a + esc + b;
    assert(forall|i: int| 0 <= i < s.len() ==> s[i] != '\n');
    lemma_remove_nl_id(s);
    assert(forall|i: int| 0 <= i < (a + b).len() ==> (a + b)[i] != '\n');
    lemma_remove_nl_id(a + b);
    lemma_remove_esc_nl_clean_prefix(a, esc + b);
    assert(remove_esc_nl(esc + b) == remove_esc_nl(b)) by {
        assert((esc + b)[0] == '\\' && (esc + b)[1] == 'n');
        assert((esc + b).skip(2) =~= b);
    }
    assert(forall|i: int| 0 <= i < b.len() ==> b[i] != '\\');
    lemma_remove_esc_nl_id(b);
    assert(forall|i: int| 0 <= i < (a + b).len() ==> (a + b)[i] != '\\');
    lemma_remove_esc_nl_id(a + b);
    assert(s =~= a + (esc + b));
    assert(remove_esc_nl(s) == a + remove_esc_nl(esc + b));
    assert(remove_esc_nl(remove_nl(s)) =~= a + b);
}

} // verus!
