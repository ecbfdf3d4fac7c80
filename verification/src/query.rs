//! Query-string handling: decoding the raw query into name/value pairs
//! (through the `url` crate), the last-occurrence-wins lookup into those
//! pairs, and the parsers for numeric and boolean parameter values.

use vstd::prelude::*;

verus! {

/// The model of a decoded query string: name/value pairs, in order.
pub type QueryPairsModel = Seq<(Seq<char>, Seq<char>)>;

/// The models of a list of owned name/value pairs.
pub open spec fn qpairs_view(v: Seq<(String, String)>) -> QueryPairsModel {
    v.map_values(|p: (String, String)| (p.0@, p.1@))
}

/// What `application/x-www-form-urlencoded` decoding yields on a query
/// string: the name/value pairs in order, percent-decoded, a function of the
/// input text alone.
pub uninterp spec fn parsed_query_of(q: Seq<char>) -> QueryPairsModel;

/// Relies on url::form_urlencoded::parse: converts a byte string in the
/// `application/x-www-form-urlencoded` syntax into percent-decoded
/// name/value pairs, depending on the input alone; an empty input yields no
/// pairs.
#[verifier::external_body]
pub fn decode_query(query: &str) -> (r: Vec<(String, String)>)
    ensures
        qpairs_view(r@) == parsed_query_of(query@),
        query@.len() == 0 ==> r@.len() == 0,
{
    url::form_urlencoded::parse(query.as_bytes()).into_owned().collect()
}

/// The value under the last occurrence of `key`, if any: on duplicate
/// parameter names the last occurrence wins.
pub open spec fn query_lookup(ps: QueryPairsModel, key: Seq<char>) -> Option<Seq<char>>
    decreases ps.len(),
{
    if ps.len() == 0 {
        None
    } else if ps.last().0 == key {
        Some(ps.last().1)
    } else {
        query_lookup(ps.drop_last(), key)
    }
}

/// The value under the last occurrence of `key` among the decoded pairs.
pub fn query_get<'a>(params: &'a Vec<(String, String)>, key: &str) -> (r: Option<&'a String>)
    ensures
        match r {
            Some(v) => query_lookup(qpairs_view(params@), key@) == Some(v@),
            None => query_lookup(qpairs_view(params@), key@) is None,
        },
{
    let key_owned: String = key.to_owned();
    let ghost ps = qpairs_view(params@);
    let mut i: usize = params.len();
    proof {
        assert(ps.take(i as int) =~= ps);
    }
    while i > 0
        invariant
            0 <= i <= params.len(),
            ps == qpairs_view(params@),
            query_lookup(ps, key@) == query_lookup(ps.take(i as int), key@),
            key_owned@ == key@,
        decreases i,
    {
        i = i - 1;
        if params[i].0 == key_owned {
            proof {
                assert(ps.take(i as int + 1).last() == ps[i as int]);
            }
            return Some(&params[i].1);
        }
        proof {
            assert(ps.take(i as int + 1).last() == ps[i as int]);
            assert(ps.take(i as int + 1).drop_last() =~= ps.take(i as int));
        }
    }
    proof {
        assert(ps.take(0) =~= Seq::<(Seq<char>, Seq<char>)>::empty());
    }
    None
}

/// Whether `c` is a decimal digit.
pub open spec fn is_digit(c: char) -> bool {
    48 <= (c as u32) && (c as u32) <= 57
}

/// The numeric value of the digit `c`.
pub open spec fn digit_val(c: char) -> nat {
    ((c as u32) - 48) as nat
}

/// Whether every character of `s` is a decimal digit.
pub open spec fn all_digits(s: Seq<char>) -> bool {
    forall|i: int| 0 <= i < s.len() ==> is_digit(#[trigger] s[i])
}

/// The number denoted by a digit sequence, most significant digit first.
pub open spec fn digits_val(s: Seq<char>) -> nat
    decreases s.len(),
{
    if s.len() == 0 {
        0
    } else {
        digits_val(s.drop_last()) * 10 + digit_val(s.last())
    }
}

/// What an unsigned-integer request parameter denotes: a non-empty sequence
/// of decimal digits whose value fits in 32 bits. Anything else is rejected,
/// deliberately including a leading sign or whitespace: an identifier or
/// numeric query value on the wire is plain digits, and a stray `+` is a
/// malformed request, not another spelling of the same number.
pub open spec fn parse_u32_spec(s: Seq<char>) -> Option<u32> {
    if s.len() > 0 && all_digits(s) && digits_val(s) <= u32::MAX {
        Some(digits_val(s) as u32)
    } else {
        None
    }
}

/// Extending a digit sequence never decreases its value.
proof fn lemma_digits_val_prefix(s: Seq<char>, k: int)
    requires
        0 <= k <= s.len(),
    ensures
        digits_val(s.take(k)) <= digits_val(s),
    decreases s.len() - k,
{
    if k < s.len() {
        assert(s.take(k + 1).drop_last() =~= s.take(k));
        assert(s.take(k + 1).last() == s[k]);
        let x = digits_val(s.take(k));
        assert(x * 10 >= x) by (nonlinear_arith);
        lemma_digits_val_prefix(s, k + 1);
    } else {
        assert(s.take(k) =~= s);
    }
}

/// Parses a decimal unsigned integer, exactly as [`parse_u32_spec`] says.
pub fn parse_u32(s: &str) -> (r: Option<u32>)
    ensures
        r == parse_u32_spec(s@),
{
    let n = s.unicode_len();
    if n == 0 {
        return None;
    }
    let mut acc: u32 = 0;
    let mut i: usize = 0;
    while i < n
        invariant
            0 <= i <= n,
            n == s@.len(),
            all_digits(s@.take(i as int)),
            acc == digits_val(s@.take(i as int)),
        decreases n - i,
    {
        let c = s.get_char(i);
        let d = c as u32;
        if d < 48 || d > 57 {
            assert(!is_digit(s@[i as int]));
            return None;
        }
        proof {
            assert(s@.take(i as int + 1).drop_last() =~= s@.take(i as int));
            assert(s@.take(i as int + 1).last() == s@[i as int]);
        }
        let next = match acc.checked_mul(10) {
            Some(m) => m.checked_add(d - 48),
            None => None,
        };
        match next {
            Some(v) => {
                acc = v;
            },
            None => {
                proof {
                    assert(digits_val(s@.take(i as int + 1)) > u32::MAX);
                    lemma_digits_val_prefix(s@, i as int + 1);
                }
                return None;
            },
        }
        i = i + 1;
    }
    proof {
        assert(s@.take(n as int) =~= s@);
    }
    Some(acc)
}

/// What a boolean request parameter denotes: exactly the texts `true` and
/// `false`; anything else is rejected.
pub open spec fn parse_bool_spec(s: Seq<char>) -> Option<bool> {
    if s == "true"@ {
        Some(true)
    } else if s == "false"@ {
        Some(false)
    } else {
        None
    }
}

/// Parses a boolean parameter value, exactly as [`parse_bool_spec`] says.
pub fn parse_bool(s: &str) -> (r: Option<bool>)
    ensures
        r == parse_bool_spec(s@),
{
    let t: String = s.to_owned();
    if t == "true".to_owned() {
        Some(true)
    } else if t == "false".to_owned() {
        Some(false)
    } else {
        None
    }
}

} // verus!
