//! Parse `parcferme://equip?…` deep links.
//!
//! All deep-link input is untrusted: the link alone grants nothing. The
//! download it names is authorized by this device's stored token and the
//! server's own access check, so a crafted link cannot fetch a setup the
//! linked user cannot already see. The optional `token` is carried through
//! for the server and never relied on here.
use vstd::prelude::*;

use crate::download::{extract_setup_uuid, is_uuid_text, setup_uuid_of};
use crate::error::Error;
use crate::text::{
    chars_eq, debug_quoted, debug_text, lower_chars, lower_seq, pieces, slice_chars, split_once,
    split_once_chars, split_pieces, string_of, to_chars, trim, trim_chars, trim_end_char,
    trim_end_char_chars,
};
use vstd::utf8::encode_utf8;

verus! {

/// The custom URL scheme registered for the desktop app.
pub const SCHEME: &'static str = "parcferme";

/// A parsed `parcferme://equip` request.
#[derive(Debug, Clone, PartialEq, Eq)]
pub struct EquipRequest {
    /// The setup to fetch — the id the download endpoint takes.
    pub setup_id: String,
    /// Optional signed payload, meaningful only to the server; `None` when
    /// the link omits it.
    pub token: Option<String>,
}

/// `parcferme://`, the text every link must start with (in any case).
pub open spec fn scheme_prefix() -> Seq<char> {
    seq!['p', 'a', 'r', 'c', 'f', 'e', 'r', 'm', 'e', ':', '/', '/']
}

/// The only action the desktop app serves.
pub open spec fn equip_word() -> Seq<char> {
    seq!['e', 'q', 'u', 'i', 'p']
}

/// The value of an ASCII hex digit.
pub open spec fn hex_value(b: u8) -> Option<u8> {
    if 48 <= b <= 57 {
        Some((b - 48) as u8)
    } else if 97 <= b <= 102 {
        Some((b - 97 + 10) as u8)
    } else if 65 <= b <= 70 {
        Some((b - 65 + 10) as u8)
    } else {
        None
    }
}

/// `%XX` escapes decoded byte by byte; an invalid escape is kept verbatim
/// and `+` is not a space.
pub open spec fn pct_decode(b: Seq<u8>) -> Seq<u8>
    decreases b.len(),
{
    if b.len() == 0 {
        Seq::empty()
    } else if b[0] == 37 && b.len() > 2 && hex_value(b[1]) is Some && hex_value(b[2]) is Some {
        seq![(hex_value(b[1])->0 * 16 + hex_value(b[2])->0) as u8] + pct_decode(b.skip(3))
    } else {
        seq![b[0]] + pct_decode(b.skip(1))
    }
}

/// What `String::from_utf8_lossy` makes of `bytes`: the text they encode,
/// with each invalid sequence replaced by U+FFFD.
pub uninterp spec fn lossy_text(bytes: Seq<u8>) -> Seq<char>;

/// `String::from_utf8_lossy(bytes).into_owned()`. Its documentation
/// promises that valid UTF-8 comes back as the text it encodes, unchanged.
#[verifier::external_body]
fn utf8_lossy(bytes: &[u8]) -> (r: String)
    ensures
        r@ == lossy_text(bytes@),
        vstd::utf8::valid_utf8(bytes@) ==> r@ == vstd::utf8::decode_utf8(bytes@),
{
    String::from_utf8_lossy(bytes).into_owned()
}

/// A query value after percent-decoding.
pub open spec fn decoded_value(v: Seq<char>) -> Seq<char> {
    lossy_text(pct_decode(encode_utf8(v)))
}

fn hex_val(b: u8) -> (r: Option<u8>)
    ensures
        r == hex_value(b),
{
    if 48 <= b && b <= 57 {
        Some(b - 48)
    } else if 97 <= b && b <= 102 {
        Some(b - 97 + 10)
    } else if 65 <= b && b <= 70 {
        Some(b - 65 + 10)
    } else {
        None
    }
}

fn pct_decode_bytes(bytes: &[u8]) -> (r: Vec<u8>)
    ensures
        r@ == pct_decode(bytes@),
{
    let mut out: Vec<u8> = Vec::new();
    let mut i: usize = 0;
    assert(bytes@.skip(0) =~= bytes@);
    while i < bytes.len()
        invariant
            i <= bytes@.len(),
            out@ + pct_decode(bytes@.skip(i as int)) == pct_decode(bytes@),
        decreases bytes@.len() - i,
    {
        let ghost t = bytes@.skip(i as int);
        if bytes[i] == 37 && 2 < bytes.len() - i {
            let hi = hex_val(bytes[i + 1]);
            let lo = hex_val(bytes[i + 2]);
            match (hi, lo) {
                (Some(h), Some(l)) => {
                    assert(t[1] == bytes@[i + 1]);
                    assert(t[2] == bytes@[i + 2]);
                    assert(t.skip(3) =~= bytes@.skip(i + 3));
                    let ghost before = out@;
                    out.push(h * 16 + l);
                    assert(out@ + pct_decode(bytes@.skip(i + 3)) =~= before + pct_decode(t));
                    i = i + 3;
                    continue ;
                },
                _ => {},
            }
        }
        assert(t.skip(1) =~= bytes@.skip(i + 1));
        let ghost before = out@;
        out.push(bytes[i]);
        assert(out@ + pct_decode(bytes@.skip(i + 1)) =~= before + pct_decode(t));
        i = i + 1;
    }
    assert(pct_decode(bytes@.skip(i as int)) =~= Seq::<u8>::empty());
    assert(out@ =~= pct_decode(bytes@));
    out
}

/// Minimal `%XX` percent-decoding for query values.
fn percent_decode(input: &Vec<char>) -> (r: String)
    ensures
        r@ == decoded_value(input@),
{
    let s = string_of(input);
    let bytes = s.as_str().as_bytes();
    let decoded = pct_decode_bytes(bytes);
    utf8_lossy(decoded.as_slice())
}

pub open spec fn is_setup_key(k: Seq<char>) -> bool {
    k == seq!['s', 'e', 't', 'u', 'p'] || k == seq!['s', 'e', 't', 'u', 'p', 'I', 'd'] || k
        == seq!['v', 'e', 'r', 's', 'i', 'o', 'n', 'I', 'd'] || k == seq!['i', 'd']
}

pub open spec fn is_token_key(k: Seq<char>) -> bool {
    k == seq!['t', 'o', 'k', 'e', 'n'] || k == seq!['s', 'i', 'g']
}

/// The key of a `key=value` pair (the whole pair when it has no `=`).
pub open spec fn param_key(pair: Seq<char>) -> Seq<char> {
    match split_once(pair, '=') {
        Some(p) => p.0,
        None => pair,
    }
}

/// The raw value of a `key=value` pair (empty when it has no `=`).
pub open spec fn param_value(pair: Seq<char>) -> Seq<char> {
    match split_once(pair, '=') {
        Some(p) => p.1,
        None => Seq::empty(),
    }
}

/// The setup value and token the query pairs carry, reading left to right:
/// a later pair overrides an earlier one, and an empty token is ignored.
pub open spec fn read_params(pairs: Seq<Seq<char>>) -> (Option<Seq<char>>, Option<Seq<char>>)
    decreases pairs.len(),
{
    if pairs.len() == 0 {
        (None, None)
    } else {
        let prev = read_params(pairs.drop_last());
        let p = pairs.last();
        let k = param_key(p);
        let v = decoded_value(param_value(p));
        if p.len() == 0 {
            prev
        } else if is_setup_key(k) {
            (Some(v), prev.1)
        } else if is_token_key(k) && v.len() > 0 {
            (prev.0, Some(v))
        } else {
            prev
        }
    }
}

/// The action and query of the text after the scheme.
pub open spec fn action_of(rest: Seq<char>) -> Seq<char> {
    match split_once(rest, '?') {
        Some(p) => trim_end_char(p.0, '/'),
        None => trim_end_char(rest, '/'),
    }
}

pub open spec fn query_of(rest: Seq<char>) -> Seq<char> {
    match split_once(rest, '?') {
        Some(p) => p.1,
        None => Seq::empty(),
    }
}

pub open spec fn has_scheme(t: Seq<char>) -> bool {
    t.len() >= 12 && lower_seq(t.take(12)) == scheme_prefix()
}

pub open spec fn missing_setup_message() -> Seq<char> {
    "equip link is missing a valid setup id"@
}

/// What [`parse`] makes of `url`: the setup id and token, or the message
/// of the `Api` error it fails with.
pub open spec fn equip_link(url: Seq<char>) -> Result<(Seq<char>, Option<Seq<char>>), Seq<char>> {
    let t = trim(url);
    if !has_scheme(t) {
        Err("not a parcferme:// link: "@ + debug_text(url))
    } else {
        let rest = t.skip(12);
        let action = action_of(rest);
        if lower_seq(action) != equip_word() {
            Err("unsupported parcferme:// action: "@ + debug_text(action)
                + " (expected \"equip\")"@)
        } else {
            let params = read_params(pieces(query_of(rest), '&'));
            match params.0 {
                Some(raw) => match setup_uuid_of(raw) {
                    Some(id) => Ok((id, params.1)),
                    None => Err(missing_setup_message()),
                },
                None => Err(missing_setup_message()),
            }
        }
    }
}

fn prefix_chars() -> (r: Vec<char>)
    ensures
        r@ == scheme_prefix(),
{
    let r = vec!['p', 'a', 'r', 'c', 'f', 'e', 'r', 'm', 'e', ':', '/', '/'];
    assert(r@ =~= scheme_prefix());
    r
}

fn key_is(k: &Vec<char>, word: &[char]) -> (r: bool)
    ensures
        r == (k@ == word@),
{
    if k.len() != word.len() {
        return false;
    }
    let mut i: usize = 0;
    while i < k.len()
        invariant
            k@.len() == word@.len(),
            i <= k@.len(),
            forall|j: int| 0 <= j < i ==> k@[j] == word@[j],
        decreases k@.len() - i,
    {
        if k[i] != word[i] {
            return false;
        }
        i = i + 1;
    }
    assert(k@ =~= word@);
    true
}

fn setup_key(k: &Vec<char>) -> (r: bool)
    ensures
        r == is_setup_key(k@),
{
    let a = ['s', 'e', 't', 'u', 'p'];
    let b = ['s', 'e', 't', 'u', 'p', 'I', 'd'];
    let c = ['v', 'e', 'r', 's', 'i', 'o', 'n', 'I', 'd'];
    let d = ['i', 'd'];
    assert(a@ =~= seq!['s', 'e', 't', 'u', 'p']);
    assert(b@ =~= seq!['s', 'e', 't', 'u', 'p', 'I', 'd']);
    assert(c@ =~= seq!['v', 'e', 'r', 's', 'i', 'o', 'n', 'I', 'd']);
    assert(d@ =~= seq!['i', 'd']);
    key_is(k, &a) || key_is(k, &b) || key_is(k, &c) || key_is(k, &d)
}

fn token_key(k: &Vec<char>) -> (r: bool)
    ensures
        r == is_token_key(k@),
{
    let a = ['t', 'o', 'k', 'e', 'n'];
    let b = ['s', 'i', 'g'];
    assert(a@ =~= seq!['t', 'o', 'k', 'e', 'n']);
    assert(b@ =~= seq!['s', 'i', 'g']);
    key_is(k, &a) || key_is(k, &b)
}

fn read_params_exec(query: &Vec<char>) -> (r: (Option<String>, Option<String>))
    ensures
        match read_params(pieces(query@, '&')).0 {
            Some(v) => r.0 matches Some(s) && s@ == v,
            None => r.0 is None,
        },
        match read_params(pieces(query@, '&')).1 {
            Some(v) => r.1 matches Some(s) && s@ == v,
            None => r.1 is None,
        },
{
    let pairs = split_pieces(query, '&');
    let ghost ps = pieces(query@, '&');
    let mut setup: Option<String> = None;
    let mut token: Option<String> = None;
    let mut i: usize = 0;
    while i < pairs.len()
        invariant
            ps == pieces(query@, '&'),
            pairs@.len() == ps.len(),
            forall|k: int| 0 <= k < pairs@.len() ==> (#[trigger] pairs@[k])@ == ps[k],
            i <= pairs@.len(),
            match read_params(ps.take(i as int)).0 {
                Some(v) => setup matches Some(s) && s@ == v,
                None => setup is None,
            },
            match read_params(ps.take(i as int)).1 {
                Some(v) => token matches Some(s) && s@ == v,
                None => token is None,
            },
        decreases pairs@.len() - i,
    {
        assert(ps.take(i + 1).drop_last() =~= ps.take(i as int));
        let pair = &pairs[i];
        if pair.len() > 0 {
            let (key, raw): (Vec<char>, Vec<char>) = match split_once_chars(pair, '=') {
                Some(kv) => kv,
                None => (pair.clone(), Vec::new()),
            };
            assert(key@ == param_key(ps[i as int]));
            assert(raw@ =~= param_value(ps[i as int]));
            let value = percent_decode(&raw);
            if setup_key(&key) {
                setup = Some(value);
            } else if token_key(&key) && value.unicode_len() > 0 {
                token = Some(value);
            }
        }
        i = i + 1;
    }
    assert(ps.take(ps.len() as int) =~= ps);
    (setup, token)
}

/// Parse and structurally validate a `parcferme://equip?…` link. Authorizes
/// nothing: that happens server-side at download time.
///
/// Scheme and action match in any case, the action may carry trailing
/// slashes, and the query's pairs may come in any order. The setup id must
/// have the id's shape (a full `…/setups/<id>` URL value is accepted too).
pub fn parse(url: &str) -> (r: Result<EquipRequest, Error>)
    ensures
        match equip_link(url@) {
            Ok(req) => r matches Ok(e) && e.setup_id@ == req.0 && match req.1 {
                Some(tk) => e.token matches Some(s) && s@ == tk,
                None => e.token is None,
            },
            Err(m) => r matches Err(Error::Api(e)) && e@ == m,
        },
{
    let t = trim_chars(&to_chars(url));
    let prefix = prefix_chars();
    let matches_scheme = t.len() >= 12 && chars_eq(&lower_chars(&slice_chars(&t, 0, 12)), &prefix);
    assert(matches_scheme == has_scheme(t@)) by {
        if t@.len() >= 12 {
            assert(t@.subrange(0, 12) =~= t@.take(12));
        }
    }
    if !matches_scheme {
        let mut m = String::from_str("not a parcferme:// link: ");
        m.append(debug_quoted(url).as_str());
        return Err(Error::Api(m));
    }
    let rest = slice_chars(&t, 12, t.len());
    assert(rest@ =~= t@.skip(12));
    let (action_raw, query): (Vec<char>, Vec<char>) = match split_once_chars(&rest, '?') {
        Some(aq) => aq,
        None => (rest.clone(), Vec::new()),
    };
    let action = trim_end_char_chars(&action_raw, '/');
    assert(action@ == action_of(rest@));
    assert(query@ =~= query_of(rest@));
    let word = vec!['e', 'q', 'u', 'i', 'p'];
    assert(word@ =~= equip_word());
    if !chars_eq(&lower_chars(&action), &word) {
        let mut m = String::from_str("unsupported parcferme:// action: ");
        m.append(debug_quoted(string_of(&action).as_str()).as_str());
        m.append(" (expected \"equip\")");
        return Err(Error::Api(m));
    }
    let (setup_raw, token) = read_params_exec(&query);
    let setup_id = match setup_raw {
        Some(raw) => extract_setup_uuid(raw.as_str()),
        None => None,
    };
    match setup_id {
        Some(id) => Ok(EquipRequest { setup_id: id, token }),
        None => Err(Error::Api(String::from_str("equip link is missing a valid setup id"))),
    }
}


/// Query parameters are order-independent: a setup pair and a token pair
/// read the same whichever comes first.
pub proof fn law_params_order_independent(
    before: Seq<Seq<char>>,
    setup_pair: Seq<char>,
    token_pair: Seq<char>,
)
    requires
        setup_pair.len() > 0,
        is_setup_key(param_key(setup_pair)),
        token_pair.len() > 0,
        is_token_key(param_key(token_pair)),
    ensures
        read_params(before.push(setup_pair).push(token_pair)) == read_params(
            before.push(token_pair).push(setup_pair),
        ),
{
    let a = before.push(setup_pair).push(token_pair);
    let b = before.push(token_pair).push(setup_pair);
    assert(a.drop_last() =~= before.push(setup_pair));
    assert(b.drop_last() =~= before.push(token_pair));
    assert(before.push(setup_pair).drop_last() =~= before);
    assert(before.push(token_pair).drop_last() =~= before);
    assert(!is_token_key(param_key(setup_pair)));
    assert(!is_setup_key(param_key(token_pair)));
    let p0 = read_params(before);
    let vs = decoded_value(param_value(setup_pair));
    let vt = decoded_value(param_value(token_pair));
    let after_t = if vt.len() > 0 {
        (p0.0, Some(vt))
    } else {
        p0
    };
    assert(read_params(before.push(setup_pair)) == (Some(vs), p0.1));
    assert(read_params(before.push(token_pair)) == after_t);
    assert(read_params(a) == (if vt.len() > 0 {
        (Some(vs), Some(vt))
    } else {
        (Some(vs), p0.1)
    }));
    assert(read_params(b) == (Some(vs), after_t.1));
}


/// A link that parses names a setup id of the id's shape: a malformed link
/// fails before any request is made.
pub proof fn law_parsed_setup_id_is_well_formed(url: Seq<char>)
    ensures
        equip_link(url) matches Ok(req) ==> is_uuid_text(req.0),
{
}

} // verus!
