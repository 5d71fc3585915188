//! Encoding of access-control role lists for storage in a search index.
//!
//! The index's filter engine matches case-insensitively, which would corrupt
//! case-sensitive role identifiers stored raw; every role is therefore hex
//! encoded. The distinguished administrator role is dropped entirely: its
//! holders bypass ACL filtering at query time, so its absence from the stored
//! list is load-bearing.

use vstd::prelude::*;
use vstd::utf8::*;

use crate::auth::ROLE_ADMIN;
use crate::hexcode::{hex_chars, hex_digit, hex_to_bytes, is_hex_digit, hex_encode_str};
use crate::hexcode::{lemma_hex_chars_injective, lemma_hex_chars_digits};

verus! {

/// The filter-safe encoding of a single role: the lowercase hex digits of
/// its UTF-8 bytes.
pub open spec fn hex_role(role: Seq<char>) -> Seq<char> {
    hex_chars(encode_utf8(role))
}

/// The encoded ACL for `roles` under administrator role `admin`: occurrences
/// of `admin` dropped, every other role hex encoded, order preserved.
pub open spec fn spec_encode_acl(roles: Seq<Seq<char>>, admin: Seq<char>) -> Seq<Seq<char>>
    decreases roles.len(),
{
    if roles.len() == 0 {
        Seq::empty()
    } else if roles[0] == admin {
        spec_encode_acl(roles.drop_first(), admin)
    } else {
        seq![hex_role(roles[0])] + spec_encode_acl(roles.drop_first(), admin)
    }
}

/// Whether `s` is the encoding of any role.
pub open spec fn is_role_image(s: Seq<char>) -> bool {
    exists|role: Seq<char>| s == hex_role(role)
}

/// String equality, decided on the UTF-8 bytes.
pub fn str_eq(a: &str, b: &str) -> (r: bool)
    ensures
        r == (a@ == b@),
{
    let ab = a.as_bytes();
    let bb = b.as_bytes();
    proof {
        if a@ == b@ {
            assert(encode_utf8(a@) == encode_utf8(b@));
        }
    }
    if ab.len() != bb.len() {
        return false;
    }
    let mut i: usize = 0;
    while i < ab.len()
        invariant
            ab@ == encode_utf8(a@),
            bb@ == encode_utf8(b@),
            ab@.len() == bb@.len(),
            i <= ab@.len(),
            forall|j: int| 0 <= j < i ==> ab@[j] == bb@[j],
        decreases ab@.len() - i,
    {
        if ab[i] != bb[i] {
            proof {
                if a@ == b@ {
                    assert(false);
                }
            }
            return false;
        }
        i += 1;
    }
    proof {
        assert(ab@ =~= bb@);
        encode_utf8_decode_utf8(a@);
        encode_utf8_decode_utf8(b@);
    }
    true
}

/// Relies on `String::from_utf8`: it succeeds exactly on valid UTF-8 input
/// and returns the string those bytes decode to.
#[verifier::external_body]
fn string_from_utf8(bytes: Vec<u8>) -> (r: Option<String>)
    ensures
        r matches Some(t) ==> valid_utf8(bytes@) && t@ == decode_utf8(bytes@),
        r is None ==> !valid_utf8(bytes@),
{
    String::from_utf8(bytes).ok()
}

/// Hex encode one role identifier.
pub fn encode_role(role: &str) -> (r: String)
    ensures
        r@ == hex_role(role@),
{
    hex_encode_str(role)
}

/// Decode one encoded role. Returns `None` exactly when `s` is the encoding
/// of no role identifier.
pub fn decode_role(s: &str) -> (r: Option<String>)
    ensures
        r matches Some(role) ==> s@ == hex_role(role@),
        r is None ==> !is_role_image(s@),
{
    match hex_to_bytes(s) {
        None => {
            proof {
                if is_role_image(s@) {
                    let role = choose|role: Seq<char>| s@ == hex_role(role);
                    assert(s@ == hex_chars(encode_utf8(role)));
                }
            }
            None
        },
        Some(bytes) => {
            let ghost bs: Seq<u8> = bytes@;
            match string_from_utf8(bytes) {
                Some(role) => {
                    proof {
                        decode_utf8_encode_utf8(bs);
                        assert(encode_utf8(role@) == bs);
                    }
                    Some(role)
                },
                None => {
                    proof {
                        if is_role_image(s@) {
                            let orig = choose|orig: Seq<char>| s@ == hex_role(orig);
                            lemma_hex_chars_injective(bs, encode_utf8(orig));
                            encode_utf8_valid_utf8(orig);
                            assert(false);
                        }
                    }
                    None
                },
            }
        },
    }
}

/// Encode an ACL under an explicit administrator role: occurrences of
/// `admin` are dropped, every other role is hex encoded, order is kept.
pub fn encode_acl_with(roles: &[String], admin: &str) -> (r: Vec<String>)
    ensures
        r.deep_view() == spec_encode_acl(roles.deep_view(), admin@),
{
    let ghost dv = roles.deep_view();
    let mut out: Vec<String> = Vec::new();
    proof {
        assert(dv.skip(0) =~= dv);
        assert(out.deep_view() =~= Seq::<Seq<char>>::empty());
        assert(out.deep_view() + spec_encode_acl(dv, admin@) =~= spec_encode_acl(dv, admin@));
    }
    let mut i: usize = 0;
    while i < roles.len()
        invariant
            dv == roles.deep_view(),
            dv.len() == roles@.len(),
            i <= roles@.len(),
            out.deep_view() + spec_encode_acl(dv.skip(i as int), admin@) == spec_encode_acl(
                dv,
                admin@,
            ),
        decreases roles@.len() - i,
    {
        let role = &roles[i];
        proof {
            assert(dv.skip(i as int).drop_first() =~= dv.skip(i + 1));
            assert(dv.skip(i as int)[0] == dv[i as int]);
            assert(dv[i as int] == role@);
        }
        let ghost old_dv = out.deep_view();
        if str_eq(role.as_str(), admin) {
            proof {
                assert(spec_encode_acl(dv.skip(i as int), admin@) == spec_encode_acl(
                    dv.skip(i + 1),
                    admin@,
                ));
            }
        } else {
            let enc = encode_role(role.as_str());
            out.push(enc);
            proof {
                assert(out.deep_view() =~= old_dv.push(enc@));
                assert(spec_encode_acl(dv.skip(i as int), admin@) == seq![hex_role(dv[i as int])]
                    + spec_encode_acl(dv.skip(i + 1), admin@));
                assert(out.deep_view() + spec_encode_acl(dv.skip(i + 1), admin@) =~= old_dv
                    + spec_encode_acl(dv.skip(i as int), admin@));
            }
        }
        i += 1;
    }
    proof {
        assert(dv.skip(dv.len() as int) =~= Seq::<Seq<char>>::empty());
        assert(out.deep_view() + Seq::<Seq<char>>::empty() =~= out.deep_view());
    }
    out
}

/// Encode an ACL, dropping the distinguished administrator role.
pub fn encode_acl(roles: &[String]) -> (r: Vec<String>)
    ensures
        r.deep_view() == spec_encode_acl(roles.deep_view(), ROLE_ADMIN@),
{
    encode_acl_with(roles, ROLE_ADMIN)
}

/// Decode an encoded ACL elementwise. Returns `None` exactly when some
/// element is the encoding of no role.
pub fn decode_acl(encoded: &[String]) -> (r: Option<Vec<String>>)
    ensures
        r matches Some(roles) ==> roles.deep_view().len() == encoded.deep_view().len()
            && forall|i: int|
            0 <= i < encoded.deep_view().len() ==> encoded.deep_view()[i] == hex_role(
                #[trigger] roles.deep_view()[i],
            ),
        r is None ==> exists|i: int|
            0 <= i < encoded.deep_view().len() && !is_role_image(
                #[trigger] encoded.deep_view()[i],
            ),
{
    let ghost dv = encoded.deep_view();
    let mut out: Vec<String> = Vec::new();
    let mut i: usize = 0;
    while i < encoded.len()
        invariant
            dv == encoded.deep_view(),
            dv.len() == encoded@.len(),
            i <= encoded@.len(),
            out.deep_view().len() == i,
            forall|j: int| 0 <= j < i ==> dv[j] == hex_role(#[trigger] out.deep_view()[j]),
        decreases encoded@.len() - i,
    {
        let ghost old_dv = out.deep_view();
        match decode_role(encoded[i].as_str()) {
            Some(role) => {
                proof {
                    assert(dv[i as int] == encoded@[i as int]@);
                }
                out.push(role);
                proof {
                    assert(out.deep_view() =~= old_dv.push(role@));
                }
                i += 1;
            },
            None => {
                proof {
                    assert(dv[i as int] == encoded@[i as int]@);
                    assert(!is_role_image(dv[i as int]));
                }
                return None;
            },
        }
    }
    Some(out)
}

/// Role encoding is injective: distinct roles have distinct encodings.
pub proof fn lemma_hex_role_injective(a: Seq<char>, b: Seq<char>)
    requires
        hex_role(a) == hex_role(b),
    ensures
        a == b,
{
    lemma_hex_chars_injective(encode_utf8(a), encode_utf8(b));
    encode_utf8_decode_utf8(a);
    encode_utf8_decode_utf8(b);
}

/// Every element of an encoded ACL is the encoding of a non-administrator
/// role of the input, in input order.
pub proof fn lemma_encode_acl_elements(roles: Seq<Seq<char>>, admin: Seq<char>)
    ensures
        forall|i: int| 0 <= i < spec_encode_acl(roles, admin).len() ==> exists|r: Seq<char>|
            r != admin && #[trigger] spec_encode_acl(roles, admin)[i] == hex_role(r),
    decreases roles.len(),
{
    if roles.len() > 0 {
        lemma_encode_acl_elements(roles.drop_first(), admin);
        let out = spec_encode_acl(roles, admin);
        let rest = spec_encode_acl(roles.drop_first(), admin);
        assert forall|i: int| 0 <= i < out.len() implies exists|r: Seq<char>|
            r != admin && #[trigger] out[i] == hex_role(r) by {
            if roles[0] == admin {
                assert(out[i] == rest[i]);
            } else if i == 0 {
                assert(out[0] == hex_role(roles[0]));
            } else {
                assert(out[i] == rest[i - 1]);
            }
        }
    }
}

/// On a list without the administrator role, encoding is elementwise hex.
pub proof fn lemma_encode_acl_no_admin(roles: Seq<Seq<char>>, admin: Seq<char>)
    requires
        forall|i: int| 0 <= i < roles.len() ==> roles[i] != admin,
    ensures
        spec_encode_acl(roles, admin).len() == roles.len(),
        forall|i: int| 0 <= i < roles.len() ==> #[trigger] spec_encode_acl(roles, admin)[i]
            == hex_role(roles[i]),
    decreases roles.len(),
{
    if roles.len() > 0 {
        assert(roles[0] != admin);
        assert forall|i: int| 0 <= i < roles.drop_first().len() implies roles.drop_first()[i]
            != admin by {
            assert(roles.drop_first()[i] == roles[i + 1]);
        }
        lemma_encode_acl_no_admin(roles.drop_first(), admin);
        assert forall|i: int| 0 <= i < roles.len() implies #[trigger] spec_encode_acl(roles, admin)[i]
            == hex_role(roles[i]) by {
            if i > 0 {
                assert(spec_encode_acl(roles, admin)[i] == spec_encode_acl(
                    roles.drop_first(),
                    admin,
                )[i - 1]);
                assert(roles.drop_first()[i - 1] == roles[i]);
            }
        }
    }
}

/// Law: the encoded ACL never contains the administrator role — not its
/// encoding, and, whenever the administrator identifier holds any character
/// outside the lowercase hex alphabet, not the raw identifier either.
pub proof fn lemma_admin_never_stored(roles: Seq<Seq<char>>, admin: Seq<char>)
    ensures
        forall|i: int| 0 <= i < spec_encode_acl(roles, admin).len()
            ==> #[trigger] spec_encode_acl(roles, admin)[i] != hex_role(admin),
        (exists|j: int| 0 <= j < admin.len() && !is_hex_digit(admin[j])) ==> forall|i: int|
            0 <= i < spec_encode_acl(roles, admin).len()
                ==> #[trigger] spec_encode_acl(roles, admin)[i] != admin,
{
    lemma_encode_acl_elements(roles, admin);
    let out = spec_encode_acl(roles, admin);
    assert forall|i: int| 0 <= i < out.len() implies #[trigger] out[i] != hex_role(admin) by {
        let r = choose|r: Seq<char>| r != admin && out[i] == hex_role(r);
        if out[i] == hex_role(admin) {
            lemma_hex_role_injective(r, admin);
        }
    }
    if exists|j: int| 0 <= j < admin.len() && !is_hex_digit(admin[j]) {
        let j = choose|j: int| 0 <= j < admin.len() && !is_hex_digit(admin[j]);
        assert forall|i: int| 0 <= i < out.len() implies #[trigger] out[i] != admin by {
            let r = choose|r: Seq<char>| r != admin && out[i] == hex_role(r);
            if out[i] == admin {
                lemma_hex_chars_digits(encode_utf8(r));
                assert(is_hex_digit(admin[j]));
            }
        }
    }
}

/// The distinguished administrator identifier holds characters outside the
/// lowercase hex alphabet, so both parts of [`lemma_admin_never_stored`]
/// apply to ACLs encoded under it.
pub proof fn lemma_role_admin_guard()
    ensures
        exists|j: int| 0 <= j < ROLE_ADMIN@.len() && !is_hex_digit(ROLE_ADMIN@[j]),
{
    reveal_strlit("ROLE_ADMIN");
    assert(!is_hex_digit('R')) by {
        assert forall|v: u8| v < 16 implies 'R' != hex_digit(v) by {}
    }
    assert(0 <= 0 < ROLE_ADMIN@.len() && !is_hex_digit(ROLE_ADMIN@[0]));
}

/// Law: decoding the encoding of a role list that does not contain the
/// administrator role recovers the original list, in original order. The
/// hypotheses on `decoded` are exactly what [`decode_acl`] ensures of its
/// successful result on [`encode_acl_with`]'s output.
pub proof fn lemma_acl_round_trip(roles: Seq<Seq<char>>, admin: Seq<char>, decoded: Seq<Seq<char>>)
    requires
        forall|i: int| 0 <= i < roles.len() ==> roles[i] != admin,
        decoded.len() == spec_encode_acl(roles, admin).len(),
        forall|i: int| 0 <= i < decoded.len() ==> spec_encode_acl(roles, admin)[i] == hex_role(
            #[trigger] decoded[i],
        ),
    ensures
        decoded == roles,
{
    lemma_encode_acl_no_admin(roles, admin);
    assert forall|i: int| 0 <= i < decoded.len() implies decoded[i] == roles[i] by {
        assert(hex_role(decoded[i]) == hex_role(roles[i]));
        lemma_hex_role_injective(decoded[i], roles[i]);
    }
    assert(decoded =~= roles);
}

/// Law: every element of an encoded ACL decodes; [`decode_acl`] cannot fail
/// on [`encode_acl_with`]'s output.
pub proof fn lemma_encoded_acl_decodable(roles: Seq<Seq<char>>, admin: Seq<char>)
    ensures
        forall|i: int| 0 <= i < spec_encode_acl(roles, admin).len() ==> is_role_image(
            #[trigger] spec_encode_acl(roles, admin)[i],
        ),
{
    lemma_encode_acl_elements(roles, admin);
    let out = spec_encode_acl(roles, admin);
    assert forall|i: int| 0 <= i < out.len() implies is_role_image(out[i]) by {
        let r = choose|r: Seq<char>| r != admin && out[i] == hex_role(r);
        assert(out[i] == hex_role(r));
    }
}

} // verus!
