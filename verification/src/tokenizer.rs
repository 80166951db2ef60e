use vstd::prelude::*;

use vstd::string::StringSliceAdditionalSpecFns;
use vstd::utf8::{decode_utf8, encode_utf8, valid_utf8};

use crate::error::DomainError;

verus! {

/// A token id and its text.
pub struct GeneratedToken {
    pub id: u32,
    pub text: String,
}

/// Tokenizer over the embedded Llama vocabulary: ids are positions in the
/// vocabulary; the token texts are read from the verified artifact by the caller.
#[derive(Default)]
pub struct LoomTokenizer;

impl LoomTokenizer {
    /// The tokenizer; it holds no state.
    pub fn new() -> (r: Self) {
        LoomTokenizer
    }
}

/// The value of an ASCII hexadecimal digit.
pub open spec fn hex_digit(b: u8) -> Option<nat> {
    if 48 <= b <= 57 {
        Some((b - 48) as nat)
    } else if 97 <= b <= 102 {
        Some((b - 87) as nat)
    } else if 65 <= b <= 70 {
        Some((b - 55) as nat)
    } else {
        None
    }
}

pub open spec fn all_hex(s: Seq<u8>) -> bool {
    forall|i: int| 0 <= i < s.len() ==> (#[trigger] hex_digit(s[i])) is Some
}

/// The number written by the hexadecimal digits `s`, most significant first.
pub open spec fn hex_number(s: Seq<u8>) -> nat
    decreases s.len(),
{
    if s.len() == 0 {
        0
    } else {
        hex_number(s.drop_last()) * 16 + match hex_digit(s.last()) {
            Some(d) => d,
            None => 0,
        }
    }
}

/// A byte parsed from base-16 text as `u8::from_str_radix(_, 16)` does: an
/// optional `+`, then at least one hexadecimal digit, the value below 256.
pub open spec fn parse_hex_byte(s: Seq<u8>) -> Option<u8> {
    let digits = if s.len() > 0 && s[0] == 43u8 {
        s.drop_first()
    } else {
        s
    };
    if digits.len() == 0 || !all_hex(digits) || hex_number(digits) > 255 {
        None
    } else {
        Some(hex_number(digits) as u8)
    }
}

/// The UTF-8 bytes of `▁` (U+2581).
pub open spec fn is_word_marker(t: Seq<u8>, i: int) -> bool {
    i + 3 <= t.len() && t[i] == 0xE2u8 && t[i + 1] == 0x96u8 && t[i + 2] == 0x81u8
}

/// `t` with every `▁` replaced by a space, scanning left to right.
pub open spec fn replace_markers(t: Seq<u8>) -> Seq<u8>
    decreases t.len(),
{
    if t.len() == 0 {
        t
    } else if is_word_marker(t, 0) {
        seq![32u8] + replace_markers(t.skip(3))
    } else {
        seq![t[0]] + replace_markers(t.skip(1))
    }
}

/// A byte token written `<0xHH>`.
pub open spec fn is_byte_token(t: Seq<u8>) -> bool {
    t.len() >= 4 && t[0] == 60u8 && t[1] == 48u8 && t[2] == 120u8 && t[t.len() - 1] == 62u8
}

/// The bytes a vocabulary entry stands for: the single byte of a `<0xHH>`
/// token (none when it does not parse), else its text with `▁` as space.
pub open spec fn spec_token_bytes(t: Seq<u8>) -> Option<Seq<u8>> {
    if is_byte_token(t) {
        match parse_hex_byte(t.subrange(3, t.len() - 1)) {
            Some(b) => Some(seq![b]),
            None => None,
        }
    } else {
        Some(replace_markers(t))
    }
}

proof fn lemma_hex_number_step(s: Seq<u8>, i: int)
    requires
        0 <= i < s.len(),
    ensures
        hex_number(s.subrange(0, i + 1)) == hex_number(s.subrange(0, i)) * 16 + match hex_digit(
            s[i],
        ) {
            Some(d) => d,
            None => 0,
        },
{
    assert(s.subrange(0, i + 1).drop_last() =~= s.subrange(0, i));
}

fn hex_digit_value(b: u8) -> (r: Option<u32>)
    ensures
        match hex_digit(b) {
            Some(d) => r == Some(d as u32),
            None => r is None,
        },
{
    if 48 <= b && b <= 57 {
        Some((b - 48) as u32)
    } else if 97 <= b && b <= 102 {
        Some((b - 87) as u32)
    } else if 65 <= b && b <= 70 {
        Some((b - 55) as u32)
    } else {
        None
    }
}

/// Parses base-16 text into a byte.
pub fn parse_hex(s: &[u8]) -> (r: Option<u8>)
    ensures
        r == parse_hex_byte(s@),
{
    let start: usize = if s.len() > 0 && s[0] == 43u8 {
        1
    } else {
        0
    };
    let ghost digits = s@.subrange(start as int, s@.len() as int);
    assert(digits =~= (if s@.len() > 0 && s@[0] == 43u8 {
        s@.drop_first()
    } else {
        s@
    }));
    if start == s.len() {
        return None;
    }
    let mut value: u32 = 0;
    let mut i: usize = start;
    while i < s.len()
        invariant
            start <= i <= s.len(),
            start == (if s@.len() > 0 && s@[0] == 43u8 {
                1int
            } else {
                0int
            }),
            digits == s@.subrange(start as int, s@.len() as int),
            all_hex(digits.subrange(0, i - start)),
            value <= 256,
            value == (if hex_number(digits.subrange(0, i - start)) < 256 {
                hex_number(digits.subrange(0, i - start))
            } else {
                256
            }),
        decreases s.len() - i,
    {
        let d = match hex_digit_value(s[i]) {
            Some(d) => d,
            None => {
                assert(digits[i - start] == s@[i as int]);
                assert(!all_hex(digits));
                return None;
            },
        };
        proof {
            assert(digits[i - start] == s@[i as int]);
            lemma_hex_number_step(digits, i - start);
            assert(digits.subrange(0, i - start + 1).drop_last() =~= digits.subrange(0, i - start));
            assert forall|k: int| 0 <= k < i - start + 1 implies (#[trigger] hex_digit(
                digits.subrange(0, i - start + 1)[k],
            )) is Some by {
                if k < i - start {
                    assert(digits.subrange(0, i - start + 1)[k] == digits.subrange(0, i - start)[k]);
                }
            }
        }
        let next = value * 16 + d;
        value = if next < 256 {
            next
        } else {
            256
        };
        i += 1;
    }
    assert(digits.subrange(0, s@.len() - start) =~= digits);
    if value > 255 {
        None
    } else {
        Some(value as u8)
    }
}

/// Replaces every `▁` in the UTF-8 bytes `t` with a space.
pub fn replace_word_markers(t: &[u8]) -> (r: Vec<u8>)
    ensures
        r@ == replace_markers(t@),
{
    let mut out: Vec<u8> = Vec::new();
    let mut i: usize = 0;
    assert(t@.subrange(0, t@.len() as int) =~= t@);
    assert(out@ + t@ =~= t@);
    assert(out@ + replace_markers(t@) =~= replace_markers(t@));
    while i < t.len()
        invariant
            i <= t.len(),
            replace_markers(t@) == out@ + replace_markers(t@.subrange(i as int, t@.len() as int)),
        decreases t.len() - i,
    {
        let ghost rest = t@.subrange(i as int, t@.len() as int);
        if t.len() - i >= 3 && t[i] == 0xE2u8 && t[i + 1] == 0x96u8 && t[i + 2] == 0x81u8 {
            assert(is_word_marker(rest, 0));
            assert(rest.skip(3) =~= t@.subrange(i + 3, t@.len() as int));
            out.push(32u8);
            i += 3;
            assert(replace_markers(t@) =~= out@ + replace_markers(t@.subrange(i as int, t@.len() as int)));
        } else {
            assert(!is_word_marker(rest, 0));
            assert(rest.skip(1) =~= t@.subrange(i + 1, t@.len() as int));
            out.push(t[i]);
            i += 1;
            assert(replace_markers(t@) =~= out@ + replace_markers(t@.subrange(i as int, t@.len() as int)));
        }
    }
    assert(t@.subrange(t@.len() as int, t@.len() as int) =~= Seq::<u8>::empty());
    assert(out@ + Seq::<u8>::empty() =~= out@);
    out
}

/// The bytes a vocabulary entry stands for.
pub fn token_bytes(token: &str) -> (r: Option<Vec<u8>>)
    ensures
        match spec_token_bytes(token.spec_bytes()) {
            Some(b) => r matches Some(v) && v@ == b,
            None => r is None,
        },
{
    let t = token.as_bytes();
    let n = t.len();
    if n >= 4 && t[0] == 60u8 && t[1] == 48u8 && t[2] == 120u8 && t[n - 1] == 62u8 {
        let mut hex: Vec<u8> = Vec::new();
        let mut i: usize = 3;
        while i < n - 1
            invariant
                3 <= i <= n - 1,
                n == t@.len(),
                n >= 4,
                hex@ == t@.subrange(3, i as int),
            decreases n - 1 - i,
        {
            hex.push(t[i]);
            i += 1;
            assert(hex@ =~= t@.subrange(3, i as int));
        }
        return match parse_hex(hex.as_slice()) {
            Some(b) => {
                let v = vec![b];
                assert(v@ =~= seq![b]);
                Some(v)
            },
            None => None,
        };
    }
    Some(replace_word_markers(t))
}

/// The bytes vocabulary entry `i` stands for; ids beyond `u32` are unusable.
pub open spec fn entry_bytes(tokens: Seq<String>, i: int) -> Option<Seq<u8>> {
    if 0 <= i < tokens.len() && i <= u32::MAX {
        spec_token_bytes(encode_utf8(tokens[i]@))
    } else {
        None
    }
}

pub open spec fn entry_len(tokens: Seq<String>, i: int) -> int {
    match entry_bytes(tokens, i) {
        Some(b) => b.len() as int,
        None => 0,
    }
}

/// Entry `i` is non-empty and begins `rest`.
pub open spec fn entry_matches(tokens: Seq<String>, i: int, rest: Seq<u8>) -> bool {
    match entry_bytes(tokens, i) {
        Some(b) => b.len() > 0 && b.len() <= rest.len() && rest.subrange(0, b.len() as int) == b,
        None => false,
    }
}

/// Entry `i` is the longest entry that begins `rest`, the lowest id among equals.
pub open spec fn best_entry(tokens: Seq<String>, i: int, rest: Seq<u8>) -> bool {
    &&& entry_matches(tokens, i, rest)
    &&& forall|j: int|
        #![trigger entry_matches(tokens, j, rest)]
        entry_matches(tokens, j, rest) ==> entry_len(tokens, j) < entry_len(tokens, i) || (
        entry_len(tokens, j) == entry_len(tokens, i) && i <= j)
}

/// Greedy longest-match tokenization of `rest`, or `None` when some position
/// is begun by no entry.
pub open spec fn greedy(tokens: Seq<String>, rest: Seq<u8>) -> Option<Seq<u32>>
    decreases rest.len(),
{
    if rest.len() == 0 {
        Some(Seq::empty())
    } else if exists|i: int| best_entry(tokens, i, rest) {
        let i = choose|i: int| best_entry(tokens, i, rest);
        match greedy(tokens, rest.skip(entry_len(tokens, i))) {
            Some(s) => Some(seq![i as u32] + s),
            None => None,
        }
    } else {
        None
    }
}

pub open spec fn prepend(ids: Seq<u32>, rest: Option<Seq<u32>>) -> Option<Seq<u32>> {
    match rest {
        Some(s) => Some(ids + s),
        None => None,
    }
}

/// Encoding succeeds with the greedy tokenization when it is not empty.
pub open spec fn spec_encode(tokens: Seq<String>, text: Seq<u8>) -> Result<Seq<u32>, DomainError> {
    match greedy(tokens, text) {
        Some(ids) => if ids.len() > 0 {
            Ok(ids)
        } else {
            Err(DomainError::TokenizerFailure)
        },
        None => Err(DomainError::TokenizerFailure),
    }
}

proof fn lemma_best_unique(tokens: Seq<String>, i: int, k: int, rest: Seq<u8>)
    requires
        best_entry(tokens, i, rest),
        best_entry(tokens, k, rest),
    ensures
        i == k,
{
    assert(entry_matches(tokens, k, rest));
    assert(entry_matches(tokens, i, rest));
}

/// `text[pos..]` begins with `b`.
fn begins_at(text: &[u8], pos: usize, b: &Vec<u8>) -> (r: bool)
    requires
        pos <= text@.len(),
    ensures
        r == (b@.len() <= text@.len() - pos && text@.subrange(pos as int, pos + b@.len()) == b@),
{
    if b.len() > text.len() - pos {
        return false;
    }
    let n = text.len();
    let mut k: usize = 0;
    while k < b.len()
        invariant
            n == text@.len(),
            k <= b@.len(),
            b@.len() <= text@.len() - pos,
            pos <= text@.len(),
            forall|m: int| 0 <= m < k ==> text@[pos + m] == b@[m],
        decreases b.len() - k,
    {
        if text[pos + k] != b[k] {
            assert(text@.subrange(pos as int, pos + b@.len())[k as int] != b@[k as int]);
            return false;
        }
        k += 1;
    }
    assert(text@.subrange(pos as int, pos + b@.len()) =~= b@);
    true
}

/// Trusted: `String::from_utf8` gives the decoded string exactly when the bytes
/// are valid UTF-8, as its documentation states.
#[verifier::external_body]
fn string_from_utf8(bytes: Vec<u8>) -> (r: Option<String>)
    ensures
        r is Some <==> valid_utf8(bytes@),
        r matches Some(s) ==> s@ == decode_utf8(bytes@),
{
    String::from_utf8(bytes).ok()
}

proof fn lemma_greedy_stuck(tokens: Seq<String>, rest: Seq<u8>)
    requires
        rest.len() > 0,
        forall|k: int| !entry_matches(tokens, k, rest),
    ensures
        greedy(tokens, rest) is None,
{
    assert forall|k: int| !best_entry(tokens, k, rest) by {}
}

proof fn lemma_greedy_step(tokens: Seq<String>, all: Seq<u8>, pos: int, i: int)
    requires
        0 <= pos < all.len(),
        best_entry(tokens, i, all.skip(pos)),
    ensures
        greedy(tokens, all.skip(pos)) == prepend(
            seq![i as u32],
            greedy(tokens, all.skip(pos + entry_len(tokens, i))),
        ),
{
    let rest = all.skip(pos);
    let c = choose|c: int| best_entry(tokens, c, rest);
    lemma_best_unique(tokens, i, c, rest);
    assert(rest.skip(entry_len(tokens, i)) =~= all.skip(pos + entry_len(tokens, i)));
}

/// The best vocabulary entry beginning `text[pos..]`: longest, lowest id.
fn find_best(tokens: &Vec<String>, decoded: &Vec<Option<Vec<u8>>>, text: &[u8], pos: usize) -> (r:
    Option<(usize, usize)>)
    requires
        pos < text@.len(),
        decoded@.len() == tokens@.len(),
        forall|i: int|
            0 <= i < tokens@.len() ==> match entry_bytes(tokens@, i) {
                Some(b) => (#[trigger] decoded@[i]) matches Some(v) && v@ == b,
                None => decoded@[i] is None,
            },
    ensures
        r is None ==> forall|k: int| !entry_matches(tokens@, k, text@.skip(pos as int)),
        r matches Some(p) ==> best_entry(tokens@, p.0 as int, text@.skip(pos as int)) && p.1
            == entry_len(tokens@, p.0 as int) && p.0 <= u32::MAX && pos + p.1 <= text@.len()
            && p.1 > 0,
{
    let ghost rest = text@.skip(pos as int);
    let mut best: Option<(usize, usize)> = None;
    let mut j: usize = 0;
    while j < decoded.len()
        invariant
            j <= decoded@.len(),
            pos < text@.len(),
            rest == text@.skip(pos as int),
            decoded@.len() == tokens@.len(),
            forall|i: int|
                0 <= i < tokens@.len() ==> match entry_bytes(tokens@, i) {
                    Some(b) => (#[trigger] decoded@[i]) matches Some(v) && v@ == b,
                    None => decoded@[i] is None,
                },
            best is None ==> forall|k: int| 0 <= k < j ==> !entry_matches(tokens@, k, rest),
            best matches Some(p) ==> {
                &&& p.0 < j
                &&& entry_matches(tokens@, p.0 as int, rest)
                &&& p.1 == entry_len(tokens@, p.0 as int)
                &&& forall|k: int|
                    0 <= k < j && entry_matches(tokens@, k, rest) ==> entry_len(tokens@, k) < p.1 || (
                    entry_len(tokens@, k) == p.1 && p.0 <= k)
            },
        decreases decoded.len() - j,
    {
        if let Some(b) = &decoded[j] {
            let hit = b.len() > 0 && begins_at(text, pos, b);
            proof {
                assert(decoded@[j as int] matches Some(v) && v@ == b@);
                if b@.len() <= text@.len() - pos {
                    assert(rest.subrange(0, b@.len() as int) =~= text@.subrange(
                        pos as int,
                        pos + b@.len(),
                    ));
                }
                assert(hit == entry_matches(tokens@, j as int, rest));
            }
            let longer = match best {
                Some(p) => b.len() > p.1,
                None => true,
            };
            if hit && longer {
                best = Some((j, b.len()));
            }
        } else {
            assert(!entry_matches(tokens@, j as int, rest));
        }
        j += 1;
    }
    match best {
        None => {
            assert forall|k: int| !entry_matches(tokens@, k, rest) by {
                if 0 <= k < tokens@.len() {
                    assert(!entry_matches(tokens@, k, rest));
                }
            }
            None
        },
        Some(p) => {
            assert forall|k: int|
                #![trigger entry_matches(tokens@, k, rest)]
                entry_matches(tokens@, k, rest) implies entry_len(tokens@, k) < entry_len(
                tokens@,
                p.0 as int,
            ) || (entry_len(tokens@, k) == entry_len(tokens@, p.0 as int) && p.0 <= k) by {
                assert(0 <= k < tokens@.len());
            }
            Some(p)
        },
    }
}

impl LoomTokenizer {
    /// The bytes of every vocabulary entry, indexed by id.
    fn decode_vocabulary(&self, tokens: &Vec<String>) -> (r: Vec<Option<Vec<u8>>>)
        ensures
            r@.len() == tokens@.len(),
            forall|i: int|
                0 <= i < tokens@.len() ==> match entry_bytes(tokens@, i) {
                    Some(b) => (#[trigger] r@[i]) matches Some(v) && v@ == b,
                    None => r@[i] is None,
                },
    {
        let mut decoded: Vec<Option<Vec<u8>>> = Vec::new();
        let mut i: usize = 0;
        while i < tokens.len()
            invariant
                i <= tokens@.len(),
                decoded@.len() == i,
                forall|k: int|
                    0 <= k < i ==> match entry_bytes(tokens@, k) {
                        Some(b) => (#[trigger] decoded@[k]) matches Some(v) && v@ == b,
                        None => decoded@[k] is None,
                    },
            decreases tokens.len() - i,
        {
            let entry = if (i as u64) <= (u32::MAX as u64) {
                token_bytes(tokens[i].as_str())
            } else {
                None
            };
            decoded.push(entry);
            i += 1;
        }
        decoded
    }

    /// Greedy longest-match encoding of `text` over the vocabulary `tokens`.
    pub fn encode(&self, tokens: &Vec<String>, text: &str) -> (r: Result<Vec<u32>, DomainError>)
        ensures
            match (r, spec_encode(tokens@, text.spec_bytes())) {
                (Ok(ids), Ok(s)) => ids@ == s,
                (Err(e), Err(s)) => e == s,
                _ => false,
            },
    {
        let decoded = self.decode_vocabulary(tokens);
        let bytes = text.as_bytes();
        let ghost all = bytes@;
        assert(all == text.spec_bytes());
        let mut ids: Vec<u32> = Vec::new();
        let mut pos: usize = 0;
        assert(all.skip(0) =~= all);
        proof {
            let g = greedy(tokens@, all);
            if g is Some {
                assert(ids@ + g->0 =~= g->0);
            }
        }
        while pos < bytes.len()
            invariant
                pos <= bytes@.len(),
                all == bytes@,
                all == text.spec_bytes(),
                decoded@.len() == tokens@.len(),
                forall|i: int|
                    0 <= i < tokens@.len() ==> match entry_bytes(tokens@, i) {
                        Some(b) => (#[trigger] decoded@[i]) matches Some(v) && v@ == b,
                        None => decoded@[i] is None,
                    },
                greedy(tokens@, all) == prepend(ids@, greedy(tokens@, all.skip(pos as int))),
            decreases bytes.len() - pos,
        {
            let (i, len) = match find_best(tokens, &decoded, bytes, pos) {
                Some(p) => p,
                None => {
                    proof {
                        lemma_greedy_stuck(tokens@, all.skip(pos as int));
                    }
                    return Err(DomainError::TokenizerFailure);
                },
            };
            proof {
                lemma_greedy_step(tokens@, all, pos as int, i as int);
            }
            let ghost before = ids@;
            ids.push(i as u32);
            pos += len;
            proof {
                let g = greedy(tokens@, all.skip(pos as int));
                if g is Some {
                    assert(before + (seq![i as u32] + g->0) =~= ids@ + g->0);
                }
            }
        }
        proof {
            assert(all.skip(pos as int) =~= Seq::<u8>::empty());
            assert(ids@ + Seq::<u32>::empty() =~= ids@);
        }
        if ids.len() == 0 {
            return Err(DomainError::TokenizerFailure);
        }
        Ok(ids)
    }

    /// The text of vocabulary entry `token_id`.
    pub fn decode(&self, tokens: &Vec<String>, token_id: u32) -> (r: Result<GeneratedToken, DomainError>)
        ensures
            match entry_bytes(tokens@, token_id as int) {
                Some(b) => if valid_utf8(b) {
                    r matches Ok(t) && t.id == token_id && t.text@ == decode_utf8(b)
                } else {
                    r == Err::<GeneratedToken, DomainError>(DomainError::TokenizerFailure)
                },
                None => r == Err::<GeneratedToken, DomainError>(DomainError::TokenizerFailure),
            },
    {
        let index = token_id as usize;
        if index >= tokens.len() {
            return Err(DomainError::TokenizerFailure);
        }
        let bytes = match token_bytes(tokens[index].as_str()) {
            Some(b) => b,
            None => return Err(DomainError::TokenizerFailure),
        };
        match string_from_utf8(bytes) {
            Some(text) => Ok(GeneratedToken { id: token_id, text }),
            None => Err(DomainError::TokenizerFailure),
        }
    }
}

/// The bytes spelled by a sequence of ids.
pub open spec fn spelled(tokens: Seq<String>, ids: Seq<u32>) -> Seq<u8>
    decreases ids.len(),
{
    if ids.len() == 0 {
        Seq::empty()
    } else {
        match entry_bytes(tokens, ids[0] as int) {
            Some(b) => b + spelled(tokens, ids.drop_first()),
            None => spelled(tokens, ids.drop_first()),
        }
    }
}

/// Greedy tokenization loses nothing: the entries of the ids it returns spell
/// exactly the text it was given.
pub proof fn law_encoding_spells_the_text(tokens: Seq<String>, text: Seq<u8>)
    requires
        greedy(tokens, text) is Some,
    ensures
        spelled(tokens, greedy(tokens, text)->0) == text,
    decreases text.len(),
{
    if text.len() > 0 {
        let i = choose|i: int| best_entry(tokens, i, text);
        let n = entry_len(tokens, i);
        let rest = text.skip(n);
        law_encoding_spells_the_text(tokens, rest);
        let ids = greedy(tokens, text)->0;
        assert(ids.drop_first() =~= greedy(tokens, rest)->0);
        assert(ids[0] as int == i);
        let b = entry_bytes(tokens, i)->0;
        assert(b == text.subrange(0, n));
        assert(b + rest =~= text);
    }
}

} // verus!
