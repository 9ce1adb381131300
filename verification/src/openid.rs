//! The Steam OpenID login redirect, and the checks on what Steam sends
//! back.
//!
//! The redirect URL carries the fixed `checkid_setup` parameters with the
//! realm and return address form-encoded: UTF-8 bytes, with letters,
//! digits and `*-._` kept, space as `+`, everything else as uppercase
//! `%XX`. A returned identity is accepted only in the exact
//! `steamcommunity.com/openid/id/` shape with a 17-digit number.

use vstd::prelude::*;
use vstd::utf8::encode_utf8;
use crate::numbers::{dec_val, digit_char, is_digit};
use crate::strings::{chars_vec, push_str_chars, string_from_chars};

verus! {

/// A byte kept verbatim by the form encoding.
pub open spec fn unreserved(b: u8) -> bool {
    (48 <= b && b <= 57) || (65 <= b && b <= 90) || (97 <= b && b <= 122) || b == 42 || b == 45
        || b == 46 || b == 95
}

/// An uppercase hex digit.
pub open spec fn hex_char(d: int) -> char {
    if d < 10 {
        digit_char(d)
    } else if d == 10 {
        'A'
    } else if d == 11 {
        'B'
    } else if d == 12 {
        'C'
    } else if d == 13 {
        'D'
    } else if d == 14 {
        'E'
    } else {
        'F'
    }
}

/// The form encoding of one byte.
pub open spec fn enc_byte(b: u8) -> Seq<char> {
    if b == 32 {
        "+"@
    } else if unreserved(b) {
        seq![b as char]
    } else {
        seq!['%', hex_char(b as int / 16), hex_char(b as int % 16)]
    }
}

pub open spec fn enc_bytes(bs: Seq<u8>) -> Seq<char>
    decreases bs.len(),
{
    if bs.len() == 0 {
        Seq::empty()
    } else {
        enc_bytes(bs.drop_last()) + enc_byte(bs.last())
    }
}

/// The form encoding of a text: its UTF-8 bytes, byte by byte.
pub open spec fn form_encoded(s: Seq<char>) -> Seq<char> {
    enc_bytes(encode_utf8(s))
}

fn hex_of(d: u8) -> (c: char)
    requires
        d <= 15,
    ensures
        c == hex_char(d as int),
{
    match d {
        0 => '0',
        1 => '1',
        2 => '2',
        3 => '3',
        4 => '4',
        5 => '5',
        6 => '6',
        7 => '7',
        8 => '8',
        9 => '9',
        10 => 'A',
        11 => 'B',
        12 => 'C',
        13 => 'D',
        14 => 'E',
        _ => 'F',
    }
}

fn unreserved_exec(b: u8) -> (r: bool)
    ensures
        r == unreserved(b),
{
    (48 <= b && b <= 57) || (65 <= b && b <= 90) || (97 <= b && b <= 122) || b == 42 || b == 45
        || b == 46 || b == 95
}

/// Appends the form encoding of `s` to the buffer.
#[verifier::loop_isolation(false)]
pub fn push_form_encoded(buf: &mut Vec<char>, s: &str)
    ensures
        final(buf)@ == old(buf)@ + form_encoded(s@),
{
    let bs = vstd::string::StrSliceExecFns::as_bytes_vec(s);
    let mut i: usize = 0;
    while i < bs.len()
        invariant
            i <= bs@.len(),
            bs@ == encode_utf8(s@),
            buf@ == old(buf)@ + enc_bytes(bs@.take(i as int)),
        decreases bs@.len() - i,
    {
        let b = bs[i];
        proof {
            assert(bs@.take(i + 1).drop_last() =~= bs@.take(i as int));
            assert(bs@.take(i + 1).last() == bs@[i as int]);
        }
        let ghost before = buf@;
        if b == 32 {
            push_str_chars(buf, "+");
        } else if unreserved_exec(b) {
            buf.push(b as char);
            proof {
                assert(buf@ =~= before + seq![b as char]);
            }
        } else {
            buf.push('%');
            buf.push(hex_of(b / 16));
            buf.push(hex_of(b % 16));
            proof {
                assert(buf@ =~= before + enc_byte(b));
            }
        }
        proof {
            assert(buf@ =~= old(buf)@ + enc_bytes(bs@.take(i + 1)));
        }
        i = i + 1;
    }
    proof {
        assert(bs@.take(bs@.len() as int) =~= bs@);
    }
}

/// The realm must name a web origin.
pub open spec fn valid_realm(r: Seq<char>) -> bool {
    ||| (r.len() >= 7 && r.take(7) == "http://"@)
    ||| (r.len() >= 8 && r.take(8) == "https://"@)
}

/// The realm and path joined with exactly one slash between them.
pub open spec fn joined_return_to(realm: Seq<char>, path: Seq<char>) -> Seq<char> {
    if realm.len() > 0 && realm.last() == '/' && path.len() > 0 && path[0] == '/' {
        realm.drop_last() + path
    } else if (realm.len() == 0 || realm.last() != '/') && (path.len() == 0 || path[0] != '/') {
        realm + "/"@ + path
    } else {
        realm + path
    }
}

/// The `checkid_setup` redirect: the fixed OpenID parameters, then the
/// return address and the realm, form-encoded.
pub open spec fn redirect_url_of(realm: Seq<char>, return_to: Seq<char>) -> Seq<char> {
    "https://steamcommunity.com/openid/login?openid.ns=http%3A%2F%2Fspecs.openid.net%2Fauth%2F2.0&openid.identity=http%3A%2F%2Fspecs.openid.net%2Fauth%2F2.0%2Fidentifier_select&openid.claimed_id=http%3A%2F%2Fspecs.openid.net%2Fauth%2F2.0%2Fidentifier_select&openid.mode=checkid_setup&openid.return_to="@
        + form_encoded(return_to) + "&openid.realm="@ + form_encoded(realm)
}

/// The redirect URL could not be built.
#[derive(Clone, Copy, Debug, PartialEq, Eq, Structural)]
pub enum NewError {
    BadUrl,
}

/// Why a returned login was rejected.
#[derive(Clone, Copy, Debug, PartialEq, Eq, Structural)]
pub enum VerifyError {
    Denied,
    BadQuery,
    RequestFailed,
    BadResponse,
}

/// The Steam OpenID login flow: where to send the player, and what address
/// Steam must echo back.
#[derive(Clone, Debug)]
pub struct SteamOpenId {
    pub return_to: String,
    pub redirect_url: String,
}

impl SteamOpenId {
    /// Builds the flow for a realm and a return path; a realm that is not
    /// a web origin is refused.
    pub fn new(realm: &str, path: &str) -> (r: Result<SteamOpenId, NewError>)
        ensures
            r is Ok <==> valid_realm(realm@),
            r matches Ok(o) ==> o.return_to@ == joined_return_to(realm@, path@)
                && o.redirect_url@ == redirect_url_of(realm@, joined_return_to(realm@, path@)),
    {
        let rc = chars_vec(realm);
        let ok = (rc.len() >= 7 && rc[0] == 'h' && rc[1] == 't' && rc[2] == 't' && rc[3] == 'p'
            && rc[4] == ':' && rc[5] == '/' && rc[6] == '/') || (rc.len() >= 8 && rc[0] == 'h'
            && rc[1] == 't' && rc[2] == 't' && rc[3] == 'p' && rc[4] == 's' && rc[5] == ':'
            && rc[6] == '/' && rc[7] == '/');
        proof {
            reveal_strlit("http://");
            reveal_strlit("https://");
            if ok {
                if rc@.len() >= 8 && rc@[4] == 's' {
                    assert(realm@.take(8) =~= "https://"@);
                } else {
                    assert(realm@.take(7) =~= "http://"@);
                }
            }
            if valid_realm(realm@) && !ok {
                if realm@.len() >= 7 && realm@.take(7) == "http://"@ {
                    assert(realm@[0] == "http://"@[0]);
                    assert(realm@[1] == "http://"@[1]);
                    assert(realm@[2] == "http://"@[2]);
                    assert(realm@[3] == "http://"@[3]);
                    assert(realm@[4] == "http://"@[4]);
                    assert(realm@[5] == "http://"@[5]);
                    assert(realm@[6] == "http://"@[6]);
                    assert(false);
                } else {
                    assert(realm@.len() >= 8 && realm@.take(8) == "https://"@);
                    assert(realm@[0] == "https://"@[0]);
                    assert(realm@[1] == "https://"@[1]);
                    assert(realm@[2] == "https://"@[2]);
                    assert(realm@[3] == "https://"@[3]);
                    assert(realm@[4] == "https://"@[4]);
                    assert(realm@[5] == "https://"@[5]);
                    assert(realm@[6] == "https://"@[6]);
                    assert(realm@[7] == "https://"@[7]);
                    assert(false);
                }
            }
        }
        if !ok {
            return Err(NewError::BadUrl);
        }
        let pc = chars_vec(path);
        let mut rt: Vec<char> = Vec::new();
        let realm_slash = rc.len() > 0 && rc[rc.len() - 1] == '/';
        let path_slash = pc.len() > 0 && pc[0] == '/';
        if realm_slash && path_slash {
            let mut i: usize = 0;
            while i < rc.len() - 1
                invariant
                    rc@.len() > 0,
                    i <= rc@.len() - 1,
                    rt@ == rc@.take(i as int),
                decreases rc@.len() - 1 - i,
            {
                rt.push(rc[i]);
                proof {
                    assert(rt@ =~= rc@.take(i + 1));
                }
                i = i + 1;
            }
            proof {
                assert(rc@.take(rc@.len() - 1) =~= rc@.drop_last());
            }
        } else {
            let mut i: usize = 0;
            while i < rc.len()
                invariant
                    i <= rc@.len(),
                    rt@ == rc@.take(i as int),
                decreases rc@.len() - i,
            {
                rt.push(rc[i]);
                proof {
                    assert(rt@ =~= rc@.take(i + 1));
                }
                i = i + 1;
            }
            proof {
                assert(rc@.take(rc@.len() as int) =~= rc@);
            }
            if !realm_slash && !path_slash {
                rt.push('/');
                proof {
                    assert(rt@ =~= rc@ + "/"@) by {
                        reveal_strlit("/");
                    }
                }
            }
        }
        let ghost rt_base = rt@;
        let mut j: usize = 0;
        while j < pc.len()
            invariant
                j <= pc@.len(),
                rt@ == rt_base + pc@.take(j as int),
            decreases pc@.len() - j,
        {
            rt.push(pc[j]);
            proof {
                assert(rt@ =~= rt_base + pc@.take(j + 1));
            }
            j = j + 1;
        }
        proof {
            assert(rt_base + pc@.take(pc@.len() as int) =~= rt_base + pc@);
            assert(rt@ =~= joined_return_to(realm@, path@));
        }
        let return_to = string_from_chars(&rt);
        let mut buf: Vec<char> = Vec::new();
        push_str_chars(
            &mut buf,
            "https://steamcommunity.com/openid/login?openid.ns=http%3A%2F%2Fspecs.openid.net%2Fauth%2F2.0&openid.identity=http%3A%2F%2Fspecs.openid.net%2Fauth%2F2.0%2Fidentifier_select&openid.claimed_id=http%3A%2F%2Fspecs.openid.net%2Fauth%2F2.0%2Fidentifier_select&openid.mode=checkid_setup&openid.return_to=",
        );
        push_form_encoded(&mut buf, return_to.as_str());
        push_str_chars(&mut buf, "&openid.realm=");
        push_form_encoded(&mut buf, realm);
        proof {
            assert(buf@ =~= redirect_url_of(realm@, joined_return_to(realm@, path@)));
        }
        Ok(SteamOpenId { return_to, redirect_url: string_from_chars(&buf) })
    }

    /// The URL the player is sent to.
    pub fn get_redirect_url(&self) -> (r: &str)
        ensures
            r@ == self.redirect_url@,
    {
        self.redirect_url.as_str()
    }
}

/// The exact accepted identity shape: the Steam community id prefix and a
/// 17-digit number.
pub open spec fn claimed_id_shape(s: Seq<char>) -> bool {
    &&& s.len() == 54
    &&& s.take(37) == "https://steamcommunity.com/openid/id/"@
    &&& forall|k: int| 37 <= k < 54 ==> is_digit(#[trigger] s[k])
}

/// The 64-bit identity named by a claimed id. Meaningful only where the
/// shape holds.
pub open spec fn claimed_id_value(s: Seq<char>) -> int {
    dec_val(s.skip(37))
}

/// Parses the identity Steam echoed back: accepted exactly in the
/// 17-digit `steamcommunity.com/openid/id/` shape.
#[verifier::loop_isolation(false)]
pub fn extract_steam_id(claimed_id: &str) -> (r: Option<u64>)
    ensures
        match r {
            Some(v) => claimed_id_shape(claimed_id@) && v as int == claimed_id_value(
                claimed_id@,
            ),
            None => !claimed_id_shape(claimed_id@),
        },
{
    let cs = chars_vec(claimed_id);
    if cs.len() != 54 {
        return None;
    }
    let prefix = chars_vec("https://steamcommunity.com/openid/id/");
    proof {
        reveal_strlit("https://steamcommunity.com/openid/id/");
        assert(prefix@.len() == 37);
    }
    let mut i: usize = 0;
    while i < 37
        invariant
            i <= 37,
            cs@ == claimed_id@,
            prefix@ == "https://steamcommunity.com/openid/id/"@,
            prefix@.len() == 37,
            cs@.len() == 54,
            forall|k: int| 0 <= k < i ==> cs@[k] == prefix@[k],
        decreases 37 - i,
    {
        if !(cs[i] == prefix[i]) {
            proof {
                assert(claimed_id@.take(37) != "https://steamcommunity.com/openid/id/"@) by {
                    assert(claimed_id@.take(37)[i as int] != prefix@[i as int]);
                }
            }
            return None;
        }
        i = i + 1;
    }
    proof {
        assert(claimed_id@.take(37) =~= prefix@);
    }
    let mut acc: u64 = 0;
    let mut k: usize = 37;
    proof {
        assert(claimed_id@.skip(37).take(0) =~= Seq::<char>::empty());
    }
    while k < 54
        invariant
            37 <= k <= 54,
            cs@ == claimed_id@,
            cs@.len() == 54,
            forall|j: int| 37 <= j < k ==> is_digit(#[trigger] cs@[j]),
            acc as int == dec_val(claimed_id@.skip(37).take(k - 37)),
            (acc as int) < crate::numbers::pow10((k - 37) as nat),
        decreases 54 - k,
    {
        let c = cs[k];
        if !(c >= '0' && c <= '9') {
            return None;
        }
        let d: u64 = (c as u32) as u64 - 48;
        proof {
            // sixteen digits so far keep the next step inside u64
            crate::numbers::lemma_pow10_mono((k - 37) as nat, 16);
            crate::numbers::lemma_pow10_16();
            let t = claimed_id@.skip(37);
            assert(t.take(k - 37 + 1).drop_last() =~= t.take(k - 37));
            assert(t.take(k - 37 + 1).last() == claimed_id@[k as int]);
        }
        acc = acc * 10 + d;
        k = k + 1;
    }
    proof {
        assert(claimed_id@.skip(37).take(17) =~= claimed_id@.skip(37));
    }
    Some(acc)
}

/// The lines of a response body, split on newline; an empty body is one
/// empty line.
pub open spec fn split_on_nl(s: Seq<char>) -> Seq<Seq<char>>
    decreases s.len(),
{
    if s.len() == 0 {
        seq![Seq::<char>::empty()]
    } else if s.last() == '\n' {
        split_on_nl(s.drop_last()).push(Seq::<char>::empty())
    } else {
        let ps = split_on_nl(s.drop_last());
        ps.update(ps.len() - 1, ps.last().push(s.last()))
    }
}

proof fn lemma_split_on_nl_len(s: Seq<char>)
    ensures
        split_on_nl(s).len() >= 1,
    decreases s.len(),
{
    if s.len() > 0 {
        lemma_split_on_nl_len(s.drop_last());
    }
}

/// Does some line of the body read exactly `is_valid:true`?
pub open spec fn has_valid_line(s: Seq<char>) -> bool {
    exists|k: int|
        0 <= k < split_on_nl(s).len() && #[trigger] split_on_nl(s)[k] == "is_valid:true"@
}

fn chars_equal(a: &Vec<char>, b: &Vec<char>) -> (r: bool)
    ensures
        r == (a@ == b@),
{
    if a.len() != b.len() {
        return false;
    }
    let mut i: usize = 0;
    while i < a.len()
        invariant
            i <= a@.len(),
            a@.len() == b@.len(),
            forall|k: int| 0 <= k < i ==> a@[k] == b@[k],
        decreases a@.len() - i,
    {
        if a[i] != b[i] {
            return false;
        }
        i = i + 1;
    }
    proof {
        assert(a@ =~= b@);
    }
    true
}

/// Scans the `check_authentication` response for the acceptance line.
#[verifier::loop_isolation(false)]
pub fn response_is_valid(body: &str) -> (r: bool)
    ensures
        r == has_valid_line(body@),
{
    let target = chars_vec("is_valid:true");
    let cs = chars_vec(body);
    let mut pieces: Vec<Vec<char>> = Vec::new();
    let mut cur: Vec<char> = Vec::new();
    let mut i: usize = 0;
    while i < cs.len()
        invariant
            i <= cs@.len(),
            cs@ == body@,
            pieces.deep_view().push(cur@) == split_on_nl(body@.take(i as int)),
        decreases cs@.len() - i,
    {
        let c = cs[i];
        let ghost old_deep = pieces.deep_view();
        let ghost old_cur = cur@;
        proof {
            assert(body@.take(i + 1).drop_last() =~= body@.take(i as int));
        }
        if c == '\n' {
            pieces.push(cur);
            cur = Vec::new();
            proof {
                assert(pieces.deep_view() =~~= old_deep.push(old_cur));
                assert(pieces.deep_view().push(cur@) =~~= split_on_nl(body@.take(i + 1)));
            }
        } else {
            cur.push(c);
            proof {
                let ps = split_on_nl(body@.take(i as int));
                lemma_split_on_nl_len(body@.take(i as int));
                assert(ps.last() == old_cur);
                assert(ps.update(ps.len() - 1, ps.last().push(body@[i as int]))
                    =~~= pieces.deep_view().push(cur@));
            }
        }
        i = i + 1;
    }
    let ghost old_deep = pieces.deep_view();
    pieces.push(cur);
    proof {
        assert(body@.take(body@.len() as int) =~= body@);
        assert(pieces.deep_view() =~~= old_deep.push(cur@));
        assert(pieces.deep_view() =~~= split_on_nl(body@));
    }
    let mut j: usize = 0;
    while j < pieces.len()
        invariant
            j <= pieces@.len(),
            target@ == "is_valid:true"@,
            pieces.deep_view() == split_on_nl(body@),
            forall|k: int| 0 <= k < j ==> #[trigger] pieces.deep_view()[k] != "is_valid:true"@,
        decreases pieces@.len() - j,
    {
        proof {
            assert(pieces.deep_view()[j as int] =~= pieces@[j as int]@);
        }
        if chars_equal(&pieces[j], &target) {
            proof {
                assert(split_on_nl(body@)[j as int] == "is_valid:true"@);
            }
            return true;
        }
        j = j + 1;
    }
    false
}

impl SteamOpenId {
    /// Does the echoed return address name this flow?
    pub fn matches_return_to(&self, return_to: &String) -> (r: bool)
        ensures
            r == (return_to@ == self.return_to@),
    {
        *return_to == self.return_to
    }

    /// Decides a `check_authentication` round: the echoed return address
    /// must name this flow and Steam must have answered with the
    /// acceptance line; anything else is denied.
    pub fn verify_auth_response(&self, return_to: &String, body: &str) -> (r: Result<
        (),
        VerifyError,
    >)
        ensures
            r is Ok <==> (return_to@ == self.return_to@ && has_valid_line(body@)),
            r matches Err(e) ==> e == VerifyError::Denied,
    {
        if !self.matches_return_to(return_to) {
            return Err(VerifyError::Denied);
        }
        if !response_is_valid(body) {
            return Err(VerifyError::Denied);
        }
        Ok(())
    }
}

} // verus!
