//! UUID text for identifiers (held as their 128-bit value), through the
//! `uuid` crate.
use vstd::prelude::*;

verus! {

/// One lower-case hexadecimal digit.
pub open spec fn hex_digit(n: nat) -> char
    recommends
        n < 16,
{
    if n < 10 {
        ((n + 48) as u32) as char
    } else {
        ((n + 87) as u32) as char
    }
}

/// The `k` low hexadecimal digits of `v`, most significant first.
pub open spec fn nibbles(v: nat, k: nat) -> Seq<char>
    decreases k,
{
    if k == 0 {
        Seq::empty()
    } else {
        nibbles(v / 16, (k - 1) as nat).push(hex_digit(v % 16))
    }
}

/// The hyphenated lower-case text of a UUID (`8-4-4-4-12` hex digits).
pub open spec fn uuid_text(id: u128) -> Seq<char> {
    let h = nibbles(id as nat, 32);
    h.subrange(0, 8) + seq!['-'] + h.subrange(8, 12) + seq!['-'] + h.subrange(12, 16) + seq![
        '-',
    ] + h.subrange(16, 20) + seq!['-'] + h.subrange(20, 32)
}

/// What `uuid::Uuid::parse_str` reads from a text, as the UUID's 128-bit
/// value (`None` when it rejects the text).
pub uninterp spec fn uuid_parse(s: Seq<char>) -> Option<u128>;

/// `uuid::Uuid::from_u128(id).to_string()`: the crate formats a UUID in its
/// hyphenated lower-case form, and `Uuid::parse_str` accepts that form.
#[verifier::external_body]
pub(crate) fn uuid_to_string(id: u128) -> (s: String)
    ensures
        s@ == uuid_text(id),
        uuid_parse(s@) == Some(id),
{
    uuid::Uuid::from_u128(id).to_string()
}

/// The text of the error `uuid::Uuid::parse_str` gives for a text it rejects.
pub uninterp spec fn uuid_error_text(s: Seq<char>) -> Seq<char>;

/// `uuid::Uuid::parse_str`, giving the UUID's 128-bit value, or the text of
/// the crate's error.
#[verifier::external_body]
pub(crate) fn parse_uuid_text(s: &str) -> (r: Result<u128, String>)
    ensures
        match uuid_parse(s@) {
            Some(id) => r == Ok::<u128, String>(id),
            None => r matches Err(m) && m@ == uuid_error_text(s@),
        },
{
    uuid::Uuid::parse_str(s).map(|u| u.as_u128()).map_err(|e| e.to_string())
}

/// The UUID a text names, if it is one.
pub fn parse_uuid(s: &str) -> (r: Option<u128>)
    ensures
        r == uuid_parse(s@),
{
    match parse_uuid_text(s) {
        Ok(id) => Some(id),
        Err(_) => None,
    }
}

/// The hyphenated UUID text never holds a `.`.
pub proof fn lemma_uuid_text_has_no_dot(id: u128)
    ensures
        !uuid_text(id).contains('.'),
        uuid_text(id).len() == 36,
{
    lemma_nibbles_are_hex(id as nat, 32);
    let h = nibbles(id as nat, 32);
    let t = uuid_text(id);
    assert(t.len() == 36);
    if t.contains('.') {
        let k = choose|k: int| 0 <= k < t.len() && t[k] == '.';
        if k < 8 {
            assert(t[k] == h[k]);
        } else if k == 8 || k == 13 || k == 18 || k == 23 {
        } else if k < 13 {
            assert(t[k] == h[k - 1]);
        } else if k < 18 {
            assert(t[k] == h[k - 2]);
        } else if k < 23 {
            assert(t[k] == h[k - 3]);
        } else {
            assert(t[k] == h[k - 4]);
        }
    }
}

/// Every character of `nibbles` is a hex digit (never a `.`).
pub proof fn lemma_nibbles_are_hex(v: nat, k: nat)
    ensures
        nibbles(v, k).len() == k,
        forall|i: int| 0 <= i < k ==> #[trigger] nibbles(v, k)[i] != '.',
    decreases k,
{
    if k > 0 {
        lemma_nibbles_are_hex(v / 16, (k - 1) as nat);
        let d = v % 16;
        assert(hex_digit(d) != '.');
        assert forall|i: int| 0 <= i < k implies #[trigger] nibbles(v, k)[i] != '.' by {
            if i < k - 1 {
                assert(nibbles(v, k)[i] == nibbles(v / 16, (k - 1) as nat)[i]);
            }
        }
    }
}

} // verus!
