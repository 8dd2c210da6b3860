//! Parsing the embedded key sequence.
//!
//! The scrambler stores one key per interior tile as a colon-separated list
//! of base-16 numbers in the image's identifier field, optionally wrapped in
//! quote characters. Quote characters are removed, the remainder is split on
//! `:`, and every segment must be a non-empty hexadecimal number that fits an
//! unsigned 32-bit integer; the first segment that is not decides the error.

use crate::error::{DescrambleError, ErrorModel};
use vstd::prelude::*;
use vstd::seq_lib::*;
use vstd::string::*;

verus! {

/// The identifier value with every quote character removed.
pub open spec fn strip_quotes(s: Seq<char>) -> Seq<char> {
    s.filter(|c: char| c != '"')
}

/// Split on `:` exactly as the tile keys are stored: adjacent, leading and
/// trailing separators all yield empty segments, and no separator yields the
/// whole text as one segment.
pub open spec fn split_colons(s: Seq<char>) -> Seq<Seq<char>>
    decreases s.len(),
{
    if s.len() == 0 {
        seq![Seq::<char>::empty()]
    } else {
        let rest = split_colons(s.drop_last());
        if s.last() == ':' {
            rest.push(Seq::<char>::empty())
        } else {
            rest.update(rest.len() - 1, rest.last().push(s.last()))
        }
    }
}

/// The key segments of a raw identifier value.
pub open spec fn tokens_of(raw: Seq<char>) -> Seq<Seq<char>> {
    split_colons(strip_quotes(raw))
}

/// A split yields at least one segment.
pub proof fn lemma_split_colons_nonempty(s: Seq<char>)
    ensures
        split_colons(s).len() >= 1,
    decreases s.len(),
{
    if s.len() > 0 {
        lemma_split_colons_nonempty(s.drop_last());
    }
}

/// Base-16 digit, both cases accepted.
pub open spec fn is_hex_digit(c: char) -> bool {
    (48 <= c as int && c as int <= 57) || (97 <= c as int && c as int <= 102) || (65 <= c as int
        && c as int <= 70)
}

/// Value of one base-16 digit.
pub open spec fn hex_digit_value(c: char) -> nat {
    if 48 <= c as int && c as int <= 57 {
        (c as int - 48) as nat
    } else if 97 <= c as int && c as int <= 102 {
        (c as int - 87) as nat
    } else {
        (c as int - 55) as nat
    }
}

/// The number a digit sequence denotes in base 16, most significant first.
pub open spec fn hex_value(t: Seq<char>) -> nat
    decreases t.len(),
{
    if t.len() == 0 {
        0
    } else {
        hex_value(t.drop_last()) * 16 + hex_digit_value(t.last())
    }
}

/// A usable key segment: non-empty, all hexadecimal, and within 32 bits.
pub open spec fn valid_hex_token(t: Seq<char>) -> bool {
    &&& t.len() > 0
    &&& forall|i: int| 0 <= i < t.len() ==> is_hex_digit(#[trigger] t[i])
    &&& hex_value(t) <= u32::MAX
}

/// Position of the first unusable segment; the segment count when all are
/// usable.
pub open spec fn first_invalid_token(toks: Seq<Seq<char>>) -> int
    decreases toks.len(),
{
    if toks.len() == 0 {
        0
    } else if !valid_hex_token(toks[0]) {
        0
    } else {
        1 + first_invalid_token(toks.drop_first())
    }
}

/// The keys a fully valid segment list denotes.
pub open spec fn keys_of(toks: Seq<Seq<char>>) -> Seq<u32> {
    toks.map_values(|t: Seq<char>| hex_value(t) as u32)
}

/// What key parsing returns for a raw identifier value: the key of every
/// segment, or the first unusable segment together with the raw value.
pub open spec fn parse_keys_spec(raw: Seq<char>) -> Result<Seq<u32>, ErrorModel> {
    let toks = tokens_of(raw);
    if first_invalid_token(toks) == toks.len() {
        Ok(keys_of(toks))
    } else {
        Err(ErrorModel::KeyParse { token: toks[first_invalid_token(toks)], raw })
    }
}

/// `first_invalid_token` is what its name says: the position of the first
/// unusable segment, or the length when there is none.
pub proof fn lemma_first_invalid_token_is(toks: Seq<Seq<char>>, i: int)
    requires
        0 <= i <= toks.len(),
        forall|j: int| 0 <= j < i ==> valid_hex_token(#[trigger] toks[j]),
        i == toks.len() || !valid_hex_token(toks[i]),
    ensures
        first_invalid_token(toks) == i,
    decreases toks.len(),
{
    if toks.len() > 0 && i > 0 {
        assert(valid_hex_token(toks[0]));
        let rest = toks.drop_first();
        assert forall|j: int| 0 <= j < i - 1 implies valid_hex_token(#[trigger] rest[j]) by {
            assert(rest[j] == toks[j + 1]);
        }
        lemma_first_invalid_token_is(rest, i - 1);
    }
}

/// Extending a digit sequence can only grow its value.
proof fn lemma_hex_value_prefix_le(t: Seq<char>, i: int)
    requires
        0 <= i <= t.len(),
    ensures
        hex_value(t.take(i)) <= hex_value(t),
    decreases t.len() - i,
{
    if i < t.len() {
        assert(t.take(i + 1).drop_last() =~= t.take(i));
        assert(hex_value(t.take(i + 1)) == hex_value(t.take(i)) * 16 + hex_digit_value(
            t.take(i + 1).last(),
        ));
        assert(hex_value(t.take(i)) <= hex_value(t.take(i)) * 16);
        lemma_hex_value_prefix_le(t, i + 1);
    } else {
        assert(t.take(i) =~= t);
    }
}

/// Parse one key segment; `None` exactly on the unusable segments.
fn parse_hex_u32(t: &str) -> (r: Option<u32>)
    ensures
        r is Some <==> valid_hex_token(t@),
        r matches Some(v) ==> v == hex_value(t@),
{
    let len = t.unicode_len();
    if len == 0 {
        return None;
    }
    let mut acc: u64 = 0;
    let mut i: usize = 0;
    while i < len
        invariant
            i <= len,
            len == t@.len(),
            forall|j: int| 0 <= j < i ==> is_hex_digit(#[trigger] t@[j]),
            acc == hex_value(t@.take(i as int)),
            acc <= u32::MAX,
        decreases len - i,
    {
        let c = t.get_char(i);
        let cu = c as u32;
        let d: u64 = if 48 <= cu && cu <= 57 {
            (cu - 48) as u64
        } else if 97 <= cu && cu <= 102 {
            (cu - 87) as u64
        } else if 65 <= cu && cu <= 70 {
            (cu - 55) as u64
        } else {
            assert(!is_hex_digit(t@[i as int]));
            return None;
        };
        proof {
            assert(t@.take(i as int + 1).drop_last() =~= t@.take(i as int));
            assert(hex_value(t@.take(i as int + 1)) == acc * 16 + d);
        }
        acc = acc * 16 + d;
        i = i + 1;
        if acc > u32::MAX as u64 {
            proof {
                lemma_hex_value_prefix_le(t@, i as int);
            }
            return None;
        }
    }
    proof {
        assert(t@.take(len as int) =~= t@);
    }
    Some(acc as u32)
}

/// Split the identifier value into segments: quote characters are dropped
/// wherever they stand, `:` closes a segment.
fn tokenize(s: &str) -> (r: Vec<String>)
    ensures
        r@.map_values(|t: String| t@) == tokens_of(s@),
        r@.len() >= 1,
{
    let len = s.unicode_len();
    let mut done: Vec<String> = Vec::new();
    let mut current: String = String::new();
    let mut i: usize = 0;
    proof {
        reveal_with_fuel(Seq::<char>::filter, 3);
        assert(s@.take(0) =~= Seq::<char>::empty());
        assert(strip_quotes(Seq::<char>::empty()) =~= Seq::<char>::empty());
        assert(done@.map_values(|t: String| t@).push(current@) =~= split_colons(
            strip_quotes(s@.take(0)),
        ));
    }
    while i < len
        invariant
            i <= len,
            len == s@.len(),
            done@.map_values(|t: String| t@).push(current@) == split_colons(
                strip_quotes(s@.take(i as int)),
            ),
        decreases len - i,
    {
        let ghost prefix = s@.take(i as int);
        let ghost state = done@.map_values(|t: String| t@).push(current@);
        let c = s.get_char(i);
        proof {
            reveal_with_fuel(Seq::<char>::filter, 3);
            assert(s@.take(i as int + 1) =~= prefix.push(c));
            assert(prefix.push(c) =~= prefix + seq![c]);
            Seq::filter_distributes_over_add(prefix, seq![c], |ch: char| ch != '"');
            assert(seq![c].drop_last() =~= Seq::<char>::empty());
            assert(Seq::<char>::empty().filter(|ch: char| ch != '"') =~= Seq::<char>::empty());
            if c != '"' {
                assert(seq![c].filter(|ch: char| ch != '"') =~= seq![c]);
                assert(strip_quotes(s@.take(i as int + 1)) =~= strip_quotes(prefix).push(c));
            } else {
                assert(seq![c].filter(|ch: char| ch != '"') =~= Seq::<char>::empty());
                assert(strip_quotes(s@.take(i as int + 1)) =~= strip_quotes(prefix));
            }
        }
        if c == '"' {
            // dropped: the stripped prefix is unchanged
        } else if c == ':' {
            proof {
                let stripped = strip_quotes(prefix);
                assert(strip_quotes(s@.take(i as int + 1)).drop_last() =~= stripped);
                assert(split_colons(strip_quotes(s@.take(i as int + 1))) == split_colons(
                    stripped,
                ).push(Seq::<char>::empty()));
            }
            let finished = current;
            done.push(finished);
            current = String::new();
            proof {
                assert(done@.map_values(|t: String| t@).push(current@) =~= state.push(
                    Seq::<char>::empty(),
                ));
            }
        } else {
            proof {
                let stripped = strip_quotes(prefix);
                let extended = strip_quotes(s@.take(i as int + 1));
                assert(extended.drop_last() =~= stripped);
                assert(extended.last() == c);
                lemma_split_colons_nonempty(stripped);
                assert(split_colons(extended) == split_colons(stripped).update(
                    split_colons(stripped).len() - 1,
                    split_colons(stripped).last().push(c),
                ));
            }
            let ch = s.substring_char(i, i + 1);
            proof {
                assert(ch@ =~= seq![c]);
            }
            current.append(ch);
            proof {
                assert(current@ =~= state.last().push(c));
                assert(done@.map_values(|t: String| t@).push(current@) =~~= state.update(
                    state.len() - 1,
                    state.last().push(c),
                ));
            }
        }
        i = i + 1;
    }
    proof {
        assert(s@.take(len as int) =~= s@);
    }
    done.push(current);
    proof {
        assert(done@.map_values(|t: String| t@) =~= split_colons(strip_quotes(s@)));
    }
    done
}

/// Parse the raw identifier value into the key sequence; the first segment
/// that is not valid hexadecimal is reported together with the whole value.
pub fn parse_keys(raw: &str) -> (r: Result<Vec<u32>, DescrambleError>)
    ensures
        match parse_keys_spec(raw@) {
            Ok(ks) => r matches Ok(v) && v@ == ks,
            Err(e) => r matches Err(err) && err@ == e,
        },
{
    let tokens = tokenize(raw);
    let ghost toks = tokens@.map_values(|t: String| t@);
    let n = tokens.len();
    let mut keys: Vec<u32> = Vec::new();
    let mut i: usize = 0;
    while i < n
        invariant
            i <= n,
            n == tokens@.len(),
            toks == tokens@.map_values(|t: String| t@),
            toks == tokens_of(raw@),
            forall|j: int| 0 <= j < i ==> valid_hex_token(#[trigger] toks[j]),
            keys@.len() == i,
            forall|j: int| 0 <= j < i ==> keys@[j] == hex_value(#[trigger] toks[j]) as u32,
        decreases n - i,
    {
        proof {
            assert(toks[i as int] == tokens@[i as int]@);
        }
        match parse_hex_u32(tokens[i].as_str()) {
            Some(v) => {
                keys.push(v);
            },
            None => {
                proof {
                    lemma_first_invalid_token_is(toks, i as int);
                }
                let token = tokens[i].clone();
                return Err(DescrambleError::KeyParseError { token, raw: raw.to_owned() });
            },
        }
        i = i + 1;
    }
    proof {
        lemma_first_invalid_token_is(toks, n as int);
        assert(keys@ =~= keys_of(toks));
    }
    Ok(keys)
}

} // verus!
